//! The wait loop: what the shell does with each answer of `waitpid`, until the
//! job it waits for has left the running state.

use crate::jobs::{Job, JobControl, JobId, JobState, JobTableView, JobView, NO_PID};
use crate::status::{signal_name, WaitStatus};
use crate::text::{decimal, push_decimal, push_signed_decimal, push_str, signed_decimal};
use vstd::prelude::*;

verus! {

/// What came back from the system while the shell waits.
#[derive(Clone, Copy, Debug, PartialEq, Eq, Structural)]
pub enum WaitEvent {
    /// `waitpid` found no child that changed state.
    StillAlive,
    /// `waitpid` reported a change of state.
    Reported(WaitStatus),
    /// `waitpid` was interrupted by a signal.
    Interrupted,
    /// `waitpid` failed for another reason.
    Failed,
    /// The sleep ended: a child changed state, or a signal is pending.
    Woken,
}

/// What the shell is to do next while it waits.
#[derive(Clone, Copy, Debug, PartialEq, Eq, Structural)]
pub enum WaitAction {
    /// Call `waitpid` for any child, reporting stops, without hanging. Before
    /// that, `report` is to be shown if it is there: a change of the job that
    /// is waited for.
    Reap { report: Option<WaitStatus> },
    /// Block all signals, sleep until a child changed state or a signal is
    /// pending, and clear the mask again.
    Sleep,
    /// The wait is over, with this status.
    Done(Option<WaitStatus>),
}

/// The state of one wait.
#[derive(Clone, Copy, Debug, PartialEq, Eq, Structural)]
pub struct WaitLoop {
    /// The job that is waited for; none for a pass that only collects.
    pub target: Option<JobId>,
    /// The wait goes on until the job has left the running state.
    pub block: bool,
}

/// A wait for `target` blocks while the job is in the table and runs.
pub open spec fn should_block(t: JobTableView, target: Option<JobId>) -> bool {
    target is Some && t.job(target->0) is Some && t.job(target->0)->0.state == JobState::Running
}

/// The job that `status` is about is the job that is waited for.
pub open spec fn about_target(t: JobTableView, target: Option<JobId>, status: WaitStatus) -> bool {
    target is Some && status.spec_pid() is Some && t.pids.contains_key(status.spec_pid()->0)
        && t.pids[status.spec_pid()->0] == target->0
}

/// The wait ends on this event: a failure of `waitpid`, or no child left to
/// collect in a wait that does not block.
pub open spec fn ends_wait(w: WaitLoop, event: WaitEvent) -> bool {
    match event {
        WaitEvent::Failed => true,
        WaitEvent::StillAlive => !w.block,
        WaitEvent::Reported(s) => s.spec_pid() is None && !w.block,
        _ => false,
    }
}

/// The wait sleeps on this event: no child is left to collect, in a wait that
/// blocks.
pub open spec fn sleeps(w: WaitLoop, event: WaitEvent) -> bool {
    match event {
        WaitEvent::StillAlive => w.block,
        WaitEvent::Reported(s) => s.spec_pid() is None && w.block,
        _ => false,
    }
}

/// The job that was waited for leaves the table at the end of the wait: it is
/// finished, or its leading process has exited.
pub open spec fn leaves_table(j: JobView) -> bool {
    j.state == JobState::Finished || j.stop_status is Exited
}

/// The exit status that the shell remembers after a wait for a job with this
/// status: the exit status of a terminal report, else what it was.
pub open spec fn remembered(exit: i32, status: WaitStatus) -> i32 {
    match status.spec_exit_code() {
        Some(c) => if c > i32::MAX {
            i32::MAX
        } else {
            c as i32
        },
        None => exit,
    }
}

impl WaitLoop {
    /// Starts a wait. With a job it blocks while the job runs; without one it
    /// makes a single pass that collects what there is. The first thing to do
    /// is to call `waitpid`.
    pub fn begin(jobs: &JobControl, job: Option<JobId>) -> (r: (WaitLoop, WaitAction))
        ensures
            r.0 == (WaitLoop { target: job, block: should_block(jobs@, job) }),
            r.1 == (WaitAction::Reap { report: None }),
    {
        let block = match job {
            Some(id) => match jobs.job_by_id(id) {
                Some(j) => j.state == JobState::Running,
                None => false,
            },
            None => false,
        };
        (WaitLoop { target: job, block }, WaitAction::Reap { report: None })
    }

    /// Takes one answer of the system and says what to do next.
    ///
    /// An interrupted `waitpid` is called again, and so is `waitpid` after a
    /// sleep. A report about a process is recorded in the table; the wait
    /// blocks on only while the job that is waited for still runs, and the
    /// report is to be shown if it is about that job. When no child is left to
    /// collect, a blocking wait sleeps. Otherwise the wait ends: a job that was
    /// waited for and is finished, or whose leading process has exited, leaves
    /// the table, and the exit status of its cached report is remembered in
    /// `exit`; the answer is that report. A wait without a job answers with
    /// the remembered exit status, as the exit of a process without an id.
    pub fn step(&mut self, jobs: &mut JobControl, exit: &mut i32, event: WaitEvent) -> (action:
        WaitAction)
        requires
            old(jobs).wf(),
        ensures
            final(jobs).wf(),
            final(self).target == old(self).target,
            event is Interrupted || event is Woken ==> {
                &&& action == (WaitAction::Reap { report: None })
                &&& *final(self) == *old(self)
                &&& final(jobs)@ == old(jobs)@
                &&& *final(exit) == *old(exit)
            },
            event is Reported && event->Reported_0.spec_pid() is Some ==> {
                let s = event->Reported_0;
                &&& final(jobs)@ == old(jobs)@.recorded(s.spec_pid()->0, s)
                &&& final(self).block == (old(self).block && should_block(
                    final(jobs)@,
                    old(self).target,
                ))
                &&& action == (WaitAction::Reap {
                    report: if about_target(old(jobs)@, old(self).target, s) {
                        Some(s)
                    } else {
                        None
                    },
                })
                &&& *final(exit) == *old(exit)
            },
            sleeps(*old(self), event) ==> {
                &&& action == WaitAction::Sleep
                &&& *final(self) == *old(self)
                &&& final(jobs)@ == old(jobs)@
                &&& *final(exit) == *old(exit)
            },
            ends_wait(*old(self), event) ==> {
                &&& *final(self) == *old(self)
                &&& finished(
                    *old(self),
                    old(jobs)@,
                    *old(exit),
                    final(jobs)@,
                    *final(exit),
                    action,
                )
            },
    {
        match event {
            WaitEvent::Interrupted => WaitAction::Reap { report: None },
            WaitEvent::Woken => WaitAction::Reap { report: None },
            WaitEvent::Reported(s) => match s.pid() {
                Some(pid) => {
                    let owner = jobs.set_process_status(pid, s);
                    let still = match self.target {
                        Some(id) => match jobs.job_by_id(id) {
                            Some(j) => j.state == JobState::Running,
                            None => false,
                        },
                        None => false,
                    };
                    self.block = self.block && still;
                    let about = match (self.target, owner) {
                        (Some(id), Some(o)) => id == o,
                        _ => false,
                    };
                    WaitAction::Reap {
                        report: if about {
                            Some(s)
                        } else {
                            None
                        },
                    }
                },
                None => self.idle(jobs, exit),
            },
            WaitEvent::StillAlive => self.idle(jobs, exit),
            WaitEvent::Failed => self.finish(jobs, exit),
        }
    }

    /// No child is left to collect: a blocking wait sleeps, any other ends.
    fn idle(&self, jobs: &mut JobControl, exit: &mut i32) -> (action: WaitAction)
        requires
            old(jobs).wf(),
        ensures
            final(jobs).wf(),
            self.block ==> action == WaitAction::Sleep && final(jobs)@ == old(jobs)@ && *final(exit)
                == *old(exit),
            !self.block ==> finished(*self, old(jobs)@, *old(exit), final(jobs)@, *final(exit), action),
    {
        if self.block {
            WaitAction::Sleep
        } else {
            self.finish(jobs, exit)
        }
    }

    /// Ends the wait.
    fn finish(&self, jobs: &mut JobControl, exit: &mut i32) -> (action: WaitAction)
        requires
            old(jobs).wf(),
        ensures
            final(jobs).wf(),
            finished(*self, old(jobs)@, *old(exit), final(jobs)@, *final(exit), action),
    {
        match self.target {
            None => WaitAction::Done(Some(get_exit_status(*exit))),
            Some(id) => {
                let found = match jobs.job_by_id(id) {
                    Some(j) => Some((j.stop_status, j.state)),
                    None => None,
                };
                match found {
                    None => WaitAction::Done(None),
                    Some((status, state)) => {
                        let exited = match status {
                            WaitStatus::Exited(_, _) => true,
                            _ => false,
                        };
                        if state == JobState::Finished || exited {
                            jobs.delete_job_by_id(id);
                            match status.exit_code() {
                                Some(c) => {
                                    *exit = c;
                                },
                                None => {},
                            }
                        }
                        WaitAction::Done(Some(status))
                    },
                }
            },
        }
    }
}

/// What the end of a wait leaves: see `WaitLoop::step`.
pub open spec fn finished(
    w: WaitLoop,
    before: JobTableView,
    exit_before: i32,
    after: JobTableView,
    exit_after: i32,
    action: WaitAction,
) -> bool {
    &&& action is Done
    &&& match w.target {
        Some(id) => match before.job(id) {
            Some(j) => {
                &&& action == WaitAction::Done(Some(j.stop_status))
                &&& after == (if leaves_table(j) {
                    before.deleted(id)
                } else {
                    before
                })
                &&& exit_after == (if leaves_table(j) {
                    remembered(exit_before, j.stop_status)
                } else {
                    exit_before
                })
            },
            None => {
                &&& action == WaitAction::Done(None)
                &&& after == before
                &&& exit_after == exit_before
            },
        },
        None => {
            &&& after == before
            &&& exit_after == exit_before
            &&& action == WaitAction::Done(Some(WaitStatus::Exited(NO_PID, exit_before)))
        },
    }
}

/// The remembered exit status as a report: an exit with that status, of
/// a process without an id.
pub fn get_exit_status(exit: i32) -> (r: WaitStatus)
    ensures
        r == WaitStatus::Exited(NO_PID, exit),
{
    WaitStatus::Exited(NO_PID, exit)
}

/// The report of a job with one process that was waited for is the report
/// of its last stage: once the kernel has reported the process, the cached
/// report of the job is that report.
pub proof fn law_single_stage_status(j: JobView, status: WaitStatus)
    requires
        j.processes.len() == 1,
    ensures
        j.reported(j.processes[0].pid, status).stop_status == status,
        j.reported(j.processes[0].pid, status).processes.last().status == Some(status),
{
}

/// The report of any job is the report of its leading process, once the
/// kernel has reported that process.
pub proof fn law_leading_status(j: JobView, pid: i32, status: WaitStatus)
    requires
        j.processes.len() > 0,
        j.reported(pid, status).processes[0].status is Some,
    ensures
        j.reported(pid, status).stop_status == j.reported(pid, status).processes[0].status->0,
{
    crate::jobs::lemma_pid_pos(j.processes, pid, 0);
}

/// The text that announces a change of a job: the number of the job in
/// brackets, the marker `ps4`, two tabs, the line of the job and a blank;
/// then, for other reports than an exit, the name of the signal in
/// parentheses, and a note if the core was dumped.
pub open spec fn status_text(j: JobView, ps4: Seq<char>, status: WaitStatus, name: Seq<char>) -> Seq<
    char,
> {
    let head = "["@ + decimal(j.job_id as nat) + "] "@ + ps4 + "\t\t"@ + j.line() + " "@;
    match status {
        WaitStatus::Signaled(_, _, dumped) => head + "("@ + name + ")"@ + (if dumped {
            " (core dumped)"@
        } else {
            Seq::empty()
        }),
        WaitStatus::Stopped(_, _) => head + "("@ + name + ")"@,
        _ => head,
    }
}

/// Tells whether a report is announced: a kill or a stop always, an exit
/// unless only signals are wanted, nothing else.
pub open spec fn announced(status: WaitStatus, sig_only: bool) -> bool {
    match status {
        WaitStatus::Exited(_, _) => !sig_only,
        WaitStatus::Signaled(_, _, _) => true,
        WaitStatus::Stopped(_, _) => true,
        _ => false,
    }
}

/// The announcement of `status` for `job`, where `name` is the name of the
/// signal of the report: see `status_text`.
pub fn format_status_with(job: &Job, ps4: &str, status: WaitStatus, name: &str, sig_only: bool) -> (r:
    Option<String>)
    ensures
        r is Some <==> announced(status, sig_only),
        r matches Some(s) ==> s@ == status_text(job@, ps4@, status, name@),
{
    let show = match status {
        WaitStatus::Exited(_, _) => !sig_only,
        WaitStatus::Signaled(_, _, _) => true,
        WaitStatus::Stopped(_, _) => true,
        _ => false,
    };
    if !show {
        return None;
    }
    let mut out = String::new();
    push_str(&mut out, "[");
    push_decimal(&mut out, job.job_id as u64);
    push_str(&mut out, "] ");
    push_str(&mut out, ps4);
    push_str(&mut out, "\t\t");
    let line = job.to_string();
    push_str(&mut out, line.as_str());
    push_str(&mut out, " ");
    match status {
        WaitStatus::Signaled(_, _, dumped) => {
            push_str(&mut out, "(");
            push_str(&mut out, name);
            push_str(&mut out, ")");
            if dumped {
                push_str(&mut out, " (core dumped)");
            }
        },
        WaitStatus::Stopped(_, _) => {
            push_str(&mut out, "(");
            push_str(&mut out, name);
            push_str(&mut out, ")");
        },
        _ => {},
    }
    assert(out@ =~= status_text(job@, ps4@, status, name@));
    Some(out)
}

/// The announcement of `status` for the job that holds the process of the
/// report, with the name that the system has for the signal. There is none
/// for a report that is not announced, and none for a process that no job
/// holds.
pub fn format_status(jobs: &JobControl, ps4: &str, status: WaitStatus, sig_only: bool) -> (r: Option<
    String,
>)
    ensures
        r is Some <==> announced(status, sig_only) && jobs@.job_of_pid(status.spec_pid()->0)
            is Some,
        r matches Some(s) ==> exists|name: Seq<char>|
            s@ == status_text(jobs@.job_of_pid(status.spec_pid()->0)->0, ps4@, status, name),
{
    let pid = match status.pid() {
        Some(p) => p,
        None => {
            return None;
        },
    };
    let job = match jobs.job_by_pid(pid) {
        Some(j) => j,
        None => {
            return None;
        },
    };
    let name = match status {
        WaitStatus::Signaled(_, s, _) => signal_name(s),
        WaitStatus::Stopped(_, s) => signal_name(s),
        _ => String::new(),
    };
    let r = format_status_with(job, ps4, status, name.as_str(), sig_only);
    proof {
        if r is Some {
            assert(r->0@ == status_text(
                jobs@.job_of_pid(status.spec_pid()->0)->0,
                ps4@,
                status,
                name@,
            ));
        }
    }
    r
}

/// The line that a wait shows for a report about the job that it waits
/// for: the announcement of a kill or of a stop by a signal. An exit is not
/// told of.
pub fn wait_report(jobs: &JobControl, ps4: &str, status: WaitStatus) -> (r: Option<String>)
    ensures
        r is Some <==> announced(status, true) && jobs@.job_of_pid(status.spec_pid()->0) is Some,
        r matches Some(s) ==> exists|name: Seq<char>|
            s@ == status_text(jobs@.job_of_pid(status.spec_pid()->0)->0, ps4@, status, name),
{
    format_status(jobs, ps4, status, true)
}

/// What the handler of the child signal asks for after it collected a report.
#[derive(Debug)]
pub struct ChildNotice {
    /// A line to print: a background job was killed or stopped by a signal.
    pub message: Option<String>,
    /// A job with several processes that is to be waited for, with interrupts
    /// off.
    pub wait_for: Option<JobId>,
}

/// The line that tells of a background job hit by a signal.
pub open spec fn signal_message(id: usize, pid: i32, status: WaitStatus) -> Option<Seq<char>> {
    match status {
        WaitStatus::Signaled(_, _, _) => Some(
            "Job ["@ + decimal(id as nat) + "] ("@ + signed_decimal(pid as int)
                + ") terminated by signal"@,
        ),
        WaitStatus::Stopped(_, _) => Some(
            "Job ["@ + decimal(id as nat) + "] ("@ + signed_decimal(pid as int)
                + ") stopped by signal"@,
        ),
        _ => None,
    }
}

/// The report is one that the handler of the child signal acts on: an exit, a
/// kill or a stop, of a process that a job holds.
pub open spec fn child_report(t: JobTableView, status: WaitStatus) -> bool {
    (status is Exited || status is Signaled || status is Stopped) && t.pids.contains_key(
        status.spec_pid()->0,
    )
}

/// The table after the handler of the child signal took `status`: the report
/// is recorded, and a background job with a single process is then asked to
/// leave the table.
pub open spec fn after_child(t: JobTableView, status: WaitStatus) -> JobTableView {
    if child_report(t, status) {
        let pid = status.spec_pid()->0;
        let id = t.pids[pid];
        let r = t.recorded(pid, status);
        if t.job(id)->0.background && t.job(id)->0.processes.len() == 1 {
            r.deleted(id)
        } else {
            r
        }
    } else {
        t
    }
}

/// The work of the handler of the child signal on the one report that it
/// collected without blocking. The report is recorded for the process. For
/// a background job a kill or a stop is told in a line; a background job of
/// one process is then asked to leave the table, and one of several processes
/// is to be waited for.
pub fn sig_chld(jobs: &mut JobControl, status: WaitStatus) -> (r: ChildNotice)
    requires
        old(jobs).wf(),
    ensures
        final(jobs).wf(),
        final(jobs)@ == after_child(old(jobs)@, status),
        !child_report(old(jobs)@, status) ==> r.message is None && r.wait_for is None,
        child_report(old(jobs)@, status) ==> {
            let pid = status.spec_pid()->0;
            let id = old(jobs)@.pids[pid];
            let job = old(jobs)@.job(id)->0;
            &&& r.wait_for == (if job.background && job.processes.len() != 1 {
                Some(id)
            } else {
                None
            })
            &&& r.message is Some <==> job.background && signal_message(id, pid, status) is Some
            &&& r.message matches Some(m) ==> Some(m@) == signal_message(id, pid, status)
        },
{
    let nothing = ChildNotice { message: None, wait_for: None };
    let pid = match status {
        WaitStatus::Exited(p, _) => p,
        WaitStatus::Signaled(p, _, _) => p,
        WaitStatus::Stopped(p, _) => p,
        _ => {
            return nothing;
        },
    };
    let (id, background, single) = match jobs.job_by_pid(pid) {
        Some(j) => (j.job_id, j.background, j.processes.len() == 1),
        None => {
            proof {
                if old(jobs)@.pids.contains_key(pid) {
                    crate::jobs::lemma_pid_has_job(old(jobs)@, pid);
                }
            }
            return nothing;
        },
    };
    proof {
        crate::jobs::lemma_pid_has_job(old(jobs)@, pid);
    }
    jobs.set_process_status(pid, status);
    if !background {
        return nothing;
    }
    let message = match status {
        WaitStatus::Signaled(_, _, _) => {
            let mut m = String::new();
            push_str(&mut m, "Job [");
            push_decimal(&mut m, id as u64);
            push_str(&mut m, "] (");
            push_signed_decimal(&mut m, pid as i64);
            push_str(&mut m, ") terminated by signal");
            Some(m)
        },
        WaitStatus::Stopped(_, _) => {
            let mut m = String::new();
            push_str(&mut m, "Job [");
            push_decimal(&mut m, id as u64);
            push_str(&mut m, "] (");
            push_signed_decimal(&mut m, pid as i64);
            push_str(&mut m, ") stopped by signal");
            Some(m)
        },
        _ => None,
    };
    if single {
        jobs.delete_job_by_id(id);
        ChildNotice { message, wait_for: None }
    } else {
        ChildNotice { message, wait_for: Some(id) }
    }
}

} // verus!
