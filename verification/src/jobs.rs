//! The table of jobs: every pipeline that the shell started and has not yet
//! forgotten, with its processes, and an index from process id to job.

use crate::status::WaitStatus;
use crate::text::{push_decimal, push_str, views};
use crate::trap::{remove_handlers, reset_kinds, ChildReset, TrapData};
use std::collections::HashMap;
use vstd::prelude::*;

verus! {

/// The number of a job.
pub type JobId = usize;

/// The process id of a process that was not forked yet.
pub const NO_PID: i32 = -1;

/// The states a job can be in.
#[derive(Clone, Copy, Debug, PartialEq, Eq, Structural)]
pub enum JobState {
    Waiting,
    Running,
    Finished,
    Stopped,
}

impl JobState {
    /// The word that a listing shows for the state.
    pub open spec fn spec_text(self) -> Seq<char> {
        match self {
            JobState::Waiting => "Waiting"@,
            JobState::Running => "Running"@,
            JobState::Finished => "Done"@,
            JobState::Stopped => "Stopped"@,
        }
    }

    /// The word that a listing shows for the state.
    pub fn as_str(&self) -> (r: &'static str)
        ensures
            r@ == self.spec_text(),
    {
        match self {
            JobState::Waiting => "Waiting",
            JobState::Running => "Running",
            JobState::Finished => "Done",
            JobState::Stopped => "Stopped",
        }
    }
}

/// One process of a pipeline: the arguments it is started with, its process
/// id once it was forked, and the last report of the kernel about it.
#[derive(Debug)]
pub struct Process {
    /// The process id; `NO_PID` until the process is forked.
    pub pid: i32,
    /// The arguments handed to the program.
    pub argv: Vec<String>,
    /// The name of the command, or the path of the executable.
    pub argv0: String,
    /// The command line, for listings.
    pub cmd: String,
    /// The last report about the process.
    pub status: Option<WaitStatus>,
}

/// The mathematical content of a `Process`.
pub struct ProcessView {
    pub pid: i32,
    pub argv: Seq<Seq<char>>,
    pub argv0: Seq<char>,
    pub cmd: Seq<char>,
    pub status: Option<WaitStatus>,
}

impl View for Process {
    type V = ProcessView;

    open spec fn view(&self) -> ProcessView {
        ProcessView {
            pid: self.pid,
            argv: views(self.argv@),
            argv0: self.argv0@,
            cmd: self.cmd@,
            status: self.status,
        }
    }
}

impl ProcessView {
    /// The process runs, as far as the shell knows: there is no report about
    /// it, or the report is neither terminal nor a stop.
    pub open spec fn alive(self) -> bool {
        match self.status {
            None => true,
            Some(s) => !s.is_terminal() && !s.is_stopped(),
        }
    }

    /// The last report says that the process was stopped.
    pub open spec fn stopped(self) -> bool {
        self.status matches Some(s) && s.is_stopped()
    }

    /// The last report says that the process is gone.
    pub open spec fn terminal(self) -> bool {
        self.status matches Some(s) && s.is_terminal()
    }
}

impl Process {
    /// A process that was not forked yet.
    pub fn new(argv: Vec<String>, argv0: String, cmd: String) -> (p: Process)
        ensures
            p@ == (ProcessView {
                pid: NO_PID,
                argv: views(argv@),
                argv0: argv0@,
                cmd: cmd@,
                status: None,
            }),
    {
        Process { pid: NO_PID, status: None, argv, argv0, cmd }
    }

    /// Records the process id that `fork` gave.
    pub fn set_pid(&mut self, pid: i32)
        ensures
            final(self)@ == (ProcessView { pid: pid, ..old(self)@ }),
    {
        self.pid = pid;
    }

    /// Tells whether the process runs, as far as the shell knows.
    pub fn is_alive(&self) -> (r: bool)
        ensures
            r == self@.alive(),
    {
        match self.status {
            None => true,
            Some(s) => !s.terminal() && !s.stopped(),
        }
    }

    /// Tells whether the last report says that the process was stopped.
    pub fn is_stopped(&self) -> (r: bool)
        ensures
            r == self@.stopped(),
    {
        match self.status {
            None => false,
            Some(s) => s.stopped(),
        }
    }
}

/// The processes of one pipeline and their bookkeeping.
#[derive(Debug)]
pub struct Job {
    /// The processes, in the order of the pipeline.
    pub processes: Vec<Process>,
    /// The number of the job.
    pub job_id: usize,
    /// The last report about the leading process.
    pub stop_status: WaitStatus,
    /// The state of the job.
    pub state: JobState,
    /// The job runs in the background.
    pub background: bool,
    /// The job received an interrupt.
    pub sigint: bool,
    /// The job was waited for.
    pub waited: bool,
    /// The job was used.
    pub used: bool,
    /// The state of the job changed since it was last shown.
    pub changed: bool,
}

/// The mathematical content of a `Job`.
pub struct JobView {
    pub processes: Seq<ProcessView>,
    pub job_id: usize,
    pub stop_status: WaitStatus,
    pub state: JobState,
    pub background: bool,
    pub sigint: bool,
    pub waited: bool,
    pub used: bool,
    pub changed: bool,
}

/// The contents of a sequence of processes.
pub open spec fn process_views(ps: Seq<Process>) -> Seq<ProcessView> {
    Seq::new(ps.len(), |k: int| ps[k]@)
}

/// The contents of a sequence of jobs.
pub open spec fn job_views(js: Seq<Job>) -> Seq<JobView> {
    Seq::new(js.len(), |i: int| js[i]@)
}

impl View for Job {
    type V = JobView;

    open spec fn view(&self) -> JobView {
        JobView {
            processes: process_views(self.processes@),
            job_id: self.job_id,
            stop_status: self.stop_status,
            state: self.state,
            background: self.background,
            sigint: self.sigint,
            waited: self.waited,
            used: self.used,
            changed: self.changed,
        }
    }
}

/// The first position at or after `from` of a process that is alive; the
/// length when there is none.
pub open spec fn first_alive(ps: Seq<ProcessView>, from: int) -> int
    decreases ps.len() - from,
{
    if from >= ps.len() {
        ps.len() as int
    } else if ps[from].alive() {
        from
    } else {
        first_alive(ps, from + 1)
    }
}

/// The first position at or after `from` of a process that is stopped; the
/// length when there is none.
pub open spec fn first_stopped(ps: Seq<ProcessView>, from: int) -> int
    decreases ps.len() - from,
{
    if from >= ps.len() {
        ps.len() as int
    } else if ps[from].stopped() {
        from
    } else {
        first_stopped(ps, from + 1)
    }
}

/// The state of a job as its processes give it: running while any process is
/// alive, else stopped if any was stopped, else finished.
pub open spec fn computed_state(ps: Seq<ProcessView>) -> JobState {
    if first_alive(ps, 0) < ps.len() {
        JobState::Running
    } else if first_stopped(ps, 0) < ps.len() {
        JobState::Stopped
    } else {
        JobState::Finished
    }
}

/// The first position at or after `from` of a process with process id `pid`;
/// the length when there is none.
pub open spec fn pid_pos(ps: Seq<ProcessView>, pid: i32, from: int) -> int
    decreases ps.len() - from,
{
    if from >= ps.len() {
        ps.len() as int
    } else if ps[from].pid == pid {
        from
    } else {
        pid_pos(ps, pid, from + 1)
    }
}

/// What `pid_pos` finds.
pub proof fn lemma_pid_pos(ps: Seq<ProcessView>, pid: i32, from: int)
    requires
        0 <= from <= ps.len(),
    ensures
        from <= pid_pos(ps, pid, from) <= ps.len(),
        pid_pos(ps, pid, from) < ps.len() ==> ps[pid_pos(ps, pid, from)].pid == pid,
        forall|k: int| from <= k < pid_pos(ps, pid, from) ==> (#[trigger] ps[k]).pid != pid,
    decreases ps.len() - from,
{
    if from < ps.len() && ps[from].pid != pid {
        lemma_pid_pos(ps, pid, from + 1);
    }
}

impl JobView {
    /// One of the processes has process id `pid`.
    pub open spec fn has_pid(self, pid: i32) -> bool {
        pid_pos(self.processes, pid, 0) < self.processes.len()
    }

    /// The job is kept on a request to delete it: it is stopped, or its leading
    /// process was reported as stopped.
    pub open spec fn kept(self) -> bool {
        self.state == JobState::Stopped || (self.processes.len() > 0
            && self.processes[0].stopped())
    }

    /// The job after a request to delete it that was turned into an update.
    pub open spec fn marked_stopped(self) -> JobView {
        JobView {
            state: JobState::Stopped,
            stop_status: if self.processes.len() > 0 && self.processes[0].stopped() {
                self.processes[0].status->0
            } else {
                self.stop_status
            },
            ..self
        }
    }

    /// A job may be forgotten once it is finished and every process has a
    /// terminal report.
    pub open spec fn deletable(self) -> bool {
        self.state == JobState::Finished && forall|k: int|
            0 <= k < self.processes.len() ==> (#[trigger] self.processes[k]).terminal()
    }

    /// The job after the kernel reported `status` of process `pid`: the first
    /// process with that id holds the report, the state follows the processes,
    /// and the report of the leading process is cached.
    pub open spec fn reported(self, pid: i32, status: WaitStatus) -> JobView {
        let k = pid_pos(self.processes, pid, 0);
        let ps = if k < self.processes.len() {
            self.processes.update(k, ProcessView { status: Some(status), ..self.processes[k] })
        } else {
            self.processes
        };
        let state = computed_state(ps);
        JobView {
            processes: ps,
            state: state,
            changed: self.changed || state != self.state,
            stop_status: if ps.len() > 0 && ps[0].status is Some {
                ps[0].status->0
            } else {
                self.stop_status
            },
            ..self
        }
    }

    /// The job after it was told to go on: it runs, in the background or not,
    /// and the stops of its processes are forgotten.
    pub open spec fn resumed(self, background: bool) -> JobView {
        JobView {
            processes: Seq::new(
                self.processes.len(),
                |k: int|
                    if self.processes[k].stopped() {
                        ProcessView { status: None, ..self.processes[k] }
                    } else {
                        self.processes[k]
                    },
            ),
            state: JobState::Running,
            background: background,
            ..self
        }
    }

    /// The line that a listing shows: the state, the commands joined by ` | `,
    /// and ` &` for a background job.
    pub open spec fn line(self) -> Seq<char> {
        self.state.spec_text() + " "@ + commands_text(self.processes, 0) + (if self.background {
            " &"@
        } else {
            Seq::empty()
        })
    }
}

/// The command lines of `ps[from..]`, joined by ` | `.
pub open spec fn commands_text(ps: Seq<ProcessView>, from: int) -> Seq<char>
    decreases ps.len() - from,
{
    if from >= ps.len() {
        Seq::empty()
    } else if from + 1 == ps.len() {
        ps[from].cmd
    } else {
        ps[from].cmd + " | "@ + commands_text(ps, from + 1)
    }
}

impl Job {
    /// A new job: it runs, and nothing is known of its processes yet.
    pub fn new(processes: Vec<Process>, job_id: usize, background: bool) -> (job: Job)
        ensures
            job@ == new_job(process_views(processes@), job_id, background),
    {
        Job {
            processes,
            stop_status: WaitStatus::StillAlive,
            state: JobState::Running,
            sigint: false,
            waited: false,
            used: false,
            job_id,
            changed: false,
            background,
        }
    }

    /// The processes of the job.
    pub fn borrow_processes(&self) -> (r: &Vec<Process>)
        ensures
            r == self.processes,
    {
        &self.processes
    }

    /// The position of the first process with id `pid`, if there is one.
    pub fn find_pid(&self, pid: i32) -> (r: Option<usize>)
        ensures
            r is Some <==> self@.has_pid(pid),
            r matches Some(k) ==> k == pid_pos(self@.processes, pid, 0),
    {
        let mut k: usize = 0;
        while k < self.processes.len()
            invariant
                k <= self.processes.len(),
                pid_pos(self@.processes, pid, 0) == pid_pos(self@.processes, pid, k as int),
            decreases self.processes.len() - k,
        {
            if self.processes[k].pid == pid {
                return Some(k);
            }
            k += 1;
        }
        None
    }

    /// The state that the processes give: see `computed_state`.
    pub fn compute_state(&self) -> (r: JobState)
        ensures
            r == computed_state(self@.processes),
    {
        let n = self.processes.len();
        let mut k: usize = 0;
        while k < n && !self.processes[k].is_alive()
            invariant
                k <= n == self.processes.len(),
                first_alive(self@.processes, 0) == first_alive(self@.processes, k as int),
            decreases n - k,
        {
            k += 1;
        }
        if k < n {
            return JobState::Running;
        }
        let mut m: usize = 0;
        while m < n && !self.processes[m].is_stopped()
            invariant
                m <= n == self.processes.len(),
                first_stopped(self@.processes, 0) == first_stopped(self@.processes, m as int),
            decreases n - m,
        {
            m += 1;
        }
        if m < n {
            JobState::Stopped
        } else {
            JobState::Finished
        }
    }

    /// Records `status` for the first process with id `pid`: the process
    /// holds the report, the state of the job follows its processes, a change
    /// of state is flagged, and the report of the leading process is cached.
    /// Tells whether there was such a process; without one nothing changes.
    pub fn set_process_status(&mut self, pid: i32, status: WaitStatus) -> (found: bool)
        ensures
            found == old(self)@.has_pid(pid),
            found ==> final(self)@ == old(self)@.reported(pid, status),
            !found ==> final(self)@ == old(self)@,
    {
        let k = match self.find_pid(pid) {
            Some(k) => k,
            None => {
                return false;
            },
        };
        self.processes[k].status = Some(status);
        assert(self@.processes =~= old(self)@.processes.update(
            k as int,
            ProcessView { status: Some(status), ..old(self)@.processes[k as int] },
        ));
        let state = self.compute_state();
        if !(state == self.state) {
            self.changed = true;
        }
        self.state = state;
        if self.processes.len() > 0 {
            match self.processes[0].status {
                Some(st) => {
                    self.stop_status = st;
                },
                None => {},
            }
        }
        true
    }

    /// The line that a listing shows for the job.
    pub fn to_string(&self) -> (r: String)
        ensures
            r@ == self@.line(),
    {
        let mut out = String::new();
        push_str(&mut out, self.state.as_str());
        push_str(&mut out, " ");
        let ghost head = out@;
        let n = self.processes.len();
        let mut cmds = String::new();
        let mut k: usize = n;
        while k > 0
            invariant
                k <= n == self.processes.len(),
                cmds@ == commands_text(self@.processes, k as int),
            decreases k,
        {
            k -= 1;
            let mut piece = String::new();
            push_str(&mut piece, self.processes[k].cmd.as_str());
            if k + 1 < n {
                push_str(&mut piece, " | ");
                push_str(&mut piece, cmds.as_str());
            }
            cmds = piece;
        }
        push_str(&mut out, cmds.as_str());
        if self.background {
            push_str(&mut out, " &");
        }
        assert(out@ =~= self@.line());
        out
    }
}

/// The content of a job that was just created.
pub open spec fn new_job(processes: Seq<ProcessView>, job_id: usize, background: bool) -> JobView {
    JobView {
        processes: processes,
        job_id: job_id,
        stop_status: WaitStatus::StillAlive,
        state: JobState::Running,
        background: background,
        sigint: false,
        waited: false,
        used: false,
        changed: false,
    }
}


/// The first position at or after `from` of the job numbered `id`; the length
/// when there is none.
pub open spec fn job_pos(jobs: Seq<JobView>, id: usize, from: int) -> int
    decreases jobs.len() - from,
{
    if from >= jobs.len() {
        jobs.len() as int
    } else if jobs[from].job_id == id {
        from
    } else {
        job_pos(jobs, id, from + 1)
    }
}

/// What `job_pos` finds.
pub proof fn lemma_job_pos(jobs: Seq<JobView>, id: usize, from: int)
    requires
        0 <= from <= jobs.len(),
    ensures
        from <= job_pos(jobs, id, from) <= jobs.len(),
        job_pos(jobs, id, from) < jobs.len() ==> jobs[job_pos(jobs, id, from)].job_id == id,
        forall|i: int| from <= i < job_pos(jobs, id, from) ==> (#[trigger] jobs[i]).job_id != id,
    decreases jobs.len() - from,
{
    if from < jobs.len() && jobs[from].job_id != id {
        lemma_job_pos(jobs, id, from + 1);
    }
}

/// The last position before `upto` of a stopped job; `-1` when there is none.
pub open spec fn last_stopped(jobs: Seq<JobView>, upto: int) -> int
    decreases upto,
{
    if upto <= 0 {
        -1
    } else if jobs[upto - 1].state == JobState::Stopped {
        upto - 1
    } else {
        last_stopped(jobs, upto - 1)
    }
}

/// What `last_stopped` finds.
pub proof fn lemma_last_stopped(jobs: Seq<JobView>, upto: int)
    requires
        0 <= upto <= jobs.len(),
    ensures
        -1 <= last_stopped(jobs, upto) < upto,
        last_stopped(jobs, upto) >= 0 ==> jobs[last_stopped(jobs, upto)].state
            == JobState::Stopped,
        forall|i: int|
            last_stopped(jobs, upto) < i < upto ==> (#[trigger] jobs[i]).state
                != JobState::Stopped,
    decreases upto,
{
    if upto > 0 && jobs[upto - 1].state != JobState::Stopped {
        lemma_last_stopped(jobs, upto - 1);
    }
}

/// The job numbered `id` is in the table and stopped.
pub open spec fn is_stopped_job(jobs: Seq<JobView>, id: usize) -> bool {
    job_pos(jobs, id, 0) < jobs.len() && jobs[job_pos(jobs, id, 0)].state == JobState::Stopped
}

/// The current job of a table: while any job is stopped, a stopped one, the
/// preferred one if it is stopped, else the last of them; with no stopped
/// job, the job created last; none in an empty table.
pub open spec fn choose_current(jobs: Seq<JobView>, prefer: Option<usize>) -> Option<usize> {
    if jobs.len() == 0 {
        None
    } else if last_stopped(jobs, jobs.len() as int) >= 0 {
        if prefer is Some && is_stopped_job(jobs, prefer->0) {
            prefer
        } else {
            Some(jobs[last_stopped(jobs, jobs.len() as int)].job_id)
        }
    } else {
        Some(jobs.last().job_id)
    }
}

/// The numbers of the jobs rise along the table.
pub open spec fn ids_rise(jobs: Seq<JobView>) -> bool {
    forall|i: int, j: int|
        0 <= i < j < jobs.len() ==> (#[trigger] jobs[i]).job_id < (#[trigger] jobs[j]).job_id
}

/// In a table whose numbers rise, a job is found at its own position.
pub proof fn lemma_job_pos_unique(jobs: Seq<JobView>, i: int)
    requires
        ids_rise(jobs),
        0 <= i < jobs.len(),
    ensures
        job_pos(jobs, jobs[i].job_id, 0) == i,
{
    lemma_job_pos(jobs, jobs[i].job_id, 0);
    let p = job_pos(jobs, jobs[i].job_id, 0);
    if p < i {
        assert(jobs[p].job_id < jobs[i].job_id);
    }
}

/// Choosing again, with the chosen job preferred, chooses the same job.
pub proof fn lemma_choose_current_stable(jobs: Seq<JobView>, prefer: Option<usize>)
    requires
        ids_rise(jobs),
    ensures
        choose_current(jobs, choose_current(jobs, prefer)) == choose_current(jobs, prefer),
{
    if jobs.len() > 0 {
        lemma_last_stopped(jobs, jobs.len() as int);
        let l = last_stopped(jobs, jobs.len() as int);
        if l >= 0 {
            lemma_job_pos_unique(jobs, l);
        }
    }
}

/// The job at position `i` is numbered `id` and holds a process with id `pid`.
pub open spec fn holds(jobs: Seq<JobView>, i: int, id: usize, pid: i32) -> bool {
    0 <= i < jobs.len() && jobs[i].job_id == id && jobs[i].has_pid(pid)
}

/// A job holds a process id exactly if one of its processes has it.
pub proof fn lemma_has_pid(ps: Seq<ProcessView>, pid: i32)
    ensures
        pid_pos(ps, pid, 0) < ps.len() <==> exists|k: int|
            0 <= k < ps.len() && (#[trigger] ps[k]).pid == pid,
{
    lemma_pid_pos(ps, pid, 0);
    if pid_pos(ps, pid, 0) < ps.len() {
        assert(ps[pid_pos(ps, pid, 0)].pid == pid);
    }
}

/// The mathematical content of the job table.
pub struct JobTableView {
    /// The jobs, in the order of their creation.
    pub jobs: Seq<JobView>,
    /// The index from process id to the number of the job.
    pub pids: Map<i32, usize>,
    /// The current job.
    pub current: Option<usize>,
    /// The number that the next job gets.
    pub next_id: usize,
    /// Job control is switched on.
    pub jobctl: bool,
}

impl JobTableView {
    /// The invariant of the table. Job numbers are positive, below the next
    /// number and rising; a process id is in the index exactly for the jobs that
    /// hold a process with it, and leads to that job; the empty table numbers
    /// from one; and the current job is the one that `choose_current` names.
    pub open spec fn wf(self) -> bool {
        &&& self.next_id >= 1
        &&& self.jobs.len() == 0 ==> self.next_id == 1
        &&& forall|i: int|
            0 <= i < self.jobs.len() ==> 1 <= (#[trigger] self.jobs[i]).job_id < self.next_id
        &&& ids_rise(self.jobs)
        &&& forall|p: i32| #[trigger]
            self.pids.contains_key(p) ==> p != NO_PID && exists|i: int| #[trigger]
                holds(self.jobs, i, self.pids[p], p)
        &&& forall|i: int, k: int|
            0 <= i < self.jobs.len() && 0 <= k < self.jobs[i].processes.len() && (
            #[trigger] self.jobs[i].processes[k]).pid != NO_PID ==> self.pids.contains_key(
                self.jobs[i].processes[k].pid,
            ) && self.pids[self.jobs[i].processes[k].pid] == self.jobs[i].job_id
        &&& self.current == choose_current(self.jobs, self.current)
    }

    /// The position of the job numbered `id`; the number of jobs when there is
    /// none.
    pub open spec fn pos(self, id: usize) -> int {
        job_pos(self.jobs, id, 0)
    }

    /// The table holds a job numbered `id`.
    pub open spec fn has_job(self, id: usize) -> bool {
        self.pos(id) < self.jobs.len()
    }

    /// The job numbered `id`, if the table holds it.
    pub open spec fn job(self, id: usize) -> Option<JobView> {
        if self.has_job(id) {
            Some(self.jobs[self.pos(id)])
        } else {
            None
        }
    }

    /// The job that holds process `pid`, if the index knows it.
    pub open spec fn job_of_pid(self, pid: i32) -> Option<JobView> {
        if self.pids.contains_key(pid) {
            self.job(self.pids[pid])
        } else {
            None
        }
    }

    /// The first position at or after `from` of a process whose id is already in
    /// the index; the length when there is none.
    pub open spec fn clash_pos(self, ps: Seq<ProcessView>, from: int) -> int
        decreases ps.len() - from,
    {
        if from >= ps.len() {
            ps.len() as int
        } else if ps[from].pid != NO_PID && self.pids.contains_key(ps[from].pid) {
            from
        } else {
            self.clash_pos(ps, from + 1)
        }
    }

    /// One of the processes has an id that belongs to a job of the table.
    pub open spec fn clashes(self, ps: Seq<ProcessView>) -> bool {
        self.clash_pos(ps, 0) < ps.len()
    }

    /// The table after a job of these processes was created.
    pub open spec fn created(self, ps: Seq<ProcessView>, background: bool) -> JobTableView {
        let id = self.next_id;
        let jobs = self.jobs.push(new_job(ps, id, background));
        JobTableView {
            jobs: jobs,
            pids: Map::new(
                |p: i32|
                    self.pids.contains_key(p) || (p != NO_PID && pid_pos(ps, p, 0) < ps.len()),
                |p: i32|
                    if self.pids.contains_key(p) {
                        self.pids[p]
                    } else {
                        id
                    },
            ),
            current: choose_current(jobs, self.current),
            next_id: (id + 1) as usize,
            ..self
        }
    }

    /// Process id `pid` can be bound to a process of job `id`: it is a real id
    /// that no job holds, and the job has a process that was not forked yet.
    pub open spec fn can_bind(self, id: usize, pid: i32) -> bool {
        pid != NO_PID && !self.pids.contains_key(pid) && self.has_job(id)
            && self.jobs[self.pos(id)].has_pid(NO_PID)
    }

    /// The table after `pid` was bound to the first process of job `id` that was
    /// not forked yet.
    pub open spec fn bound(self, id: usize, pid: i32) -> JobTableView {
        let i = self.pos(id);
        let job = self.jobs[i];
        let k = pid_pos(job.processes, NO_PID, 0);
        JobTableView {
            jobs: self.jobs.update(
                i,
                JobView {
                    processes: job.processes.update(
                        k,
                        ProcessView { pid: pid, ..job.processes[k] },
                    ),
                    ..job
                },
            ),
            pids: self.pids.insert(pid, id),
            ..self
        }
    }

    /// The table after a request to delete job `id`. A job that is kept becomes
    /// stopped; any other leaves the table with its process ids, and the
    /// numbering starts again once the table is empty.
    pub open spec fn deleted(self, id: usize) -> JobTableView {
        let i = self.pos(id);
        if i >= self.jobs.len() {
            self
        } else if self.jobs[i].kept() {
            let jobs = self.jobs.update(i, self.jobs[i].marked_stopped());
            JobTableView { jobs: jobs, current: choose_current(jobs, self.current), ..self }
        } else {
            let jobs = self.jobs.remove(i);
            JobTableView {
                jobs: jobs,
                pids: Map::new(
                    |p: i32| self.pids.contains_key(p) && self.pids[p] != id,
                    |p: i32| self.pids[p],
                ),
                current: choose_current(jobs, self.current),
                next_id: if jobs.len() == 0 {
                    1
                } else {
                    self.next_id
                },
                ..self
            }
        }
    }

    /// The table after a request to delete the job that holds process `pid`.
    pub open spec fn deleted_pid(self, pid: i32) -> JobTableView {
        if self.pids.contains_key(pid) {
            self.deleted(self.pids[pid])
        } else {
            self
        }
    }

    /// The table after the kernel reported `status` of process `pid`. A job that
    /// becomes stopped becomes the current job.
    pub open spec fn recorded(self, pid: i32, status: WaitStatus) -> JobTableView {
        if self.pids.contains_key(pid) && self.has_job(self.pids[pid]) {
            let id = self.pids[pid];
            let i = self.pos(id);
            let job = self.jobs[i].reported(pid, status);
            let jobs = self.jobs.update(i, job);
            JobTableView {
                jobs: jobs,
                current: choose_current(
                    jobs,
                    if job.state == JobState::Stopped {
                        Some(id)
                    } else {
                        self.current
                    },
                ),
                ..self
            }
        } else {
            self
        }
    }

    /// The table after job `id` was told to go on.
    pub open spec fn resumed(self, id: usize, background: bool) -> JobTableView {
        let i = self.pos(id);
        if i >= self.jobs.len() {
            self
        } else {
            let jobs = self.jobs.update(i, self.jobs[i].resumed(background));
            JobTableView { jobs: jobs, current: choose_current(jobs, self.current), ..self }
        }
    }

    /// The table after a job was proposed as the current one: it becomes
    /// current where the rule of the current job allows it.
    pub open spec fn proposed(self, id: usize) -> JobTableView {
        JobTableView { current: choose_current(self.jobs, Some(id)), ..self }
    }

    /// No job of the table runs in the background.
    pub open spec fn no_background(self) -> bool {
        forall|i: int| 0 <= i < self.jobs.len() ==> !(#[trigger] self.jobs[i]).background
    }
}

/// For every job of a well-formed table and every real process id: the index
/// leads from the id to the job exactly if the job holds a process with it.
pub proof fn law_pid_index(t: JobTableView, i: int, p: i32)
    requires
        t.wf(),
        0 <= i < t.jobs.len(),
        p != NO_PID,
    ensures
        (t.pids.contains_key(p) && t.pids[p] == t.jobs[i].job_id) <==> t.jobs[i].has_pid(p),
{
    lemma_pid_pos(t.jobs[i].processes, p, 0);
    if t.pids.contains_key(p) && t.pids[p] == t.jobs[i].job_id {
        let w = choose|w: int| holds(t.jobs, w, t.pids[p], p);
        if w < i {
            assert(t.jobs[w].job_id < t.jobs[i].job_id);
        } else if i < w {
            assert(t.jobs[i].job_id < t.jobs[w].job_id);
        }
    }
    if t.jobs[i].has_pid(p) {
        let k = pid_pos(t.jobs[i].processes, p, 0);
        assert(t.jobs[i].processes[k].pid == p);
    }
}

/// A process id of the index leads to a job of the table.
pub proof fn lemma_pid_has_job(t: JobTableView, pid: i32)
    requires
        t.wf(),
        t.pids.contains_key(pid),
    ensures
        t.has_job(t.pids[pid]),
        t.job_of_pid(pid) is Some,
        t.job_of_pid(pid)->0.job_id == t.pids[pid],
        t.job_of_pid(pid)->0.has_pid(pid),
{
    let w = choose|w: int| holds(t.jobs, w, t.pids[pid], pid);
    lemma_job_pos_unique(t.jobs, w);
}

/// Where no process is alive and none is stopped, every process has a
/// terminal report.
proof fn lemma_all_terminal(ps: Seq<ProcessView>, from: int)
    requires
        0 <= from,
        first_alive(ps, from) >= ps.len(),
        first_stopped(ps, from) >= ps.len(),
    ensures
        forall|k: int| from <= k < ps.len() ==> (#[trigger] ps[k]).terminal(),
    decreases ps.len() - from,
{
    if from < ps.len() {
        lemma_all_terminal(ps, from + 1);
    }
}

/// A job that a report leaves finished may be forgotten: each of its
/// processes has a terminal report.
pub proof fn law_finished_job_deletable(j: JobView, pid: i32, status: WaitStatus)
    requires
        j.reported(pid, status).state == JobState::Finished,
    ensures
        j.reported(pid, status).deletable(),
{
    lemma_all_terminal(j.reported(pid, status).processes, 0);
}

/// A stopped job is never deleted: a request to delete it leaves it in the
/// table, stopped.
pub proof fn law_stopped_job_stays(t: JobTableView, id: usize)
    requires
        t.wf(),
        t.job(id) matches Some(j) && j.state == JobState::Stopped,
    ensures
        t.deleted(id).job(id) matches Some(j) && j.state == JobState::Stopped,
        t.deleted(id).jobs.len() == t.jobs.len(),
{
    let i = t.pos(id);
    lemma_job_pos(t.jobs, id, 0);
    let jobs = t.jobs.update(i, t.jobs[i].marked_stopped());
    lemma_job_pos(jobs, id, 0);
    let q = job_pos(jobs, id, 0);
    if q < i {
        assert(jobs[q] == t.jobs[q]);
    }
    assert(jobs[i].job_id == id);
}

/// The jobs that run in the background are jobs of the table.
pub proof fn law_background_jobs_live(t: JobTableView, id: usize)
    requires
        t.wf(),
        t.job(id) matches Some(j) && j.background,
    ensures
        t.has_job(id),
{
}

/// While a job of a well-formed table is stopped, the current job is a
/// stopped job; else it is the job created last.
pub proof fn law_current_job(t: JobTableView)
    requires
        t.wf(),
    ensures
        t.jobs.len() == 0 ==> t.current is None,
        t.jobs.len() > 0 ==> t.current is Some && t.has_job(t.current->0),
        (exists|i: int| 0 <= i < t.jobs.len() && (#[trigger] t.jobs[i]).state == JobState::Stopped)
            ==> t.current is Some && is_stopped_job(t.jobs, t.current->0),
        (forall|i: int| 0 <= i < t.jobs.len() ==> (#[trigger] t.jobs[i]).state != JobState::Stopped)
            && t.jobs.len() > 0 ==> t.current == Some(t.jobs.last().job_id),
{
    if t.jobs.len() > 0 {
        let n = t.jobs.len() as int;
        lemma_last_stopped(t.jobs, n);
        let l = last_stopped(t.jobs, n);
        if l >= 0 {
            lemma_job_pos_unique(t.jobs, l);
        } else {
            lemma_job_pos_unique(t.jobs, n - 1);
        }
    }
}

/// What `clash_pos` finds.
pub proof fn lemma_clash_pos(t: JobTableView, ps: Seq<ProcessView>, from: int)
    requires
        0 <= from <= ps.len(),
    ensures
        from <= t.clash_pos(ps, from) <= ps.len(),
        t.clash_pos(ps, from) < ps.len() ==> ps[t.clash_pos(ps, from)].pid != NO_PID
            && t.pids.contains_key(ps[t.clash_pos(ps, from)].pid),
        forall|k: int|
            from <= k < t.clash_pos(ps, from) ==> (#[trigger] ps[k]).pid == NO_PID
                || !t.pids.contains_key(ps[k].pid),
    decreases ps.len() - from,
{
    if from < ps.len() && !(ps[from].pid != NO_PID && t.pids.contains_key(ps[from].pid)) {
        lemma_clash_pos(t, ps, from + 1);
    }
}

/// Creating a job keeps the table well formed.
pub proof fn lemma_created_wf(t: JobTableView, ps: Seq<ProcessView>, background: bool)
    requires
        t.wf(),
        !t.clashes(ps),
        t.next_id < usize::MAX,
    ensures
        t.created(ps, background).wf(),
{
    let n = t.created(ps, background);
    let job = new_job(ps, t.next_id, background);
    let last = t.jobs.len() as int;
    lemma_clash_pos(t, ps, 0);
    assert(n.jobs[last] == job);
    assert forall|i: int, j: int| 0 <= i < j < n.jobs.len() implies (#[trigger] n.jobs[i]).job_id
        < (#[trigger] n.jobs[j]).job_id by {
        if j < last {
            assert(n.jobs[i] == t.jobs[i] && n.jobs[j] == t.jobs[j]);
        } else {
            assert(n.jobs[i] == t.jobs[i]);
        }
    }
    assert forall|p: i32| #[trigger] n.pids.contains_key(p) implies p != NO_PID && exists|i: int|
     #[trigger] holds(n.jobs, i, n.pids[p], p) by {
        if t.pids.contains_key(p) {
            let w = choose|w: int| holds(t.jobs, w, t.pids[p], p);
            assert(n.jobs[w] == t.jobs[w]);
            assert(holds(n.jobs, w, n.pids[p], p));
        } else {
            assert(holds(n.jobs, last, n.pids[p], p));
        }
    }
    assert forall|i: int, k: int|
        0 <= i < n.jobs.len() && 0 <= k < n.jobs[i].processes.len() && (
        #[trigger] n.jobs[i].processes[k]).pid != NO_PID implies n.pids.contains_key(
        n.jobs[i].processes[k].pid,
    ) && n.pids[n.jobs[i].processes[k].pid] == n.jobs[i].job_id by {
        if i < last {
            assert(n.jobs[i] == t.jobs[i]);
            assert(t.jobs[i].processes[k].pid != NO_PID);
        } else {
            lemma_has_pid(ps, ps[k].pid);
        }
    }
    assert forall|i: int| 0 <= i < n.jobs.len() implies 1 <= (#[trigger] n.jobs[i]).job_id
        < n.next_id by {
        if i < last {
            assert(n.jobs[i] == t.jobs[i]);
        }
    }
    lemma_choose_current_stable(n.jobs, t.current);
}

/// Binding a process id keeps the table well formed.
pub proof fn lemma_bound_wf(t: JobTableView, id: usize, pid: i32)
    requires
        t.wf(),
        t.can_bind(id, pid),
    ensures
        t.bound(id, pid).wf(),
        t.bound(id, pid).current == t.current,
{
    let n = t.bound(id, pid);
    let i0 = t.pos(id);
    lemma_job_pos(t.jobs, id, 0);
    let old_ps = t.jobs[i0].processes;
    let k0 = pid_pos(old_ps, NO_PID, 0);
    lemma_pid_pos(old_ps, NO_PID, 0);
    let new_ps = n.jobs[i0].processes;
    assert forall|i: int| 0 <= i < n.jobs.len() implies (#[trigger] n.jobs[i]).job_id
        == t.jobs[i].job_id && n.jobs[i].state == t.jobs[i].state by {}
    assert forall|p: i32| #[trigger] n.pids.contains_key(p) implies p != NO_PID && exists|i: int|
     #[trigger] holds(n.jobs, i, n.pids[p], p) by {
        if p == pid {
            assert(new_ps[k0].pid == pid);
            lemma_has_pid(new_ps, pid);
            assert(n.pids[p] == id);
            assert(holds(n.jobs, i0, n.pids[p], p));
        } else {
            let w = choose|w: int| holds(t.jobs, w, t.pids[p], p);
            if w == i0 {
                lemma_has_pid(old_ps, p);
                let k = choose|k: int| 0 <= k < old_ps.len() && (#[trigger] old_ps[k]).pid == p;
                assert(new_ps[k].pid == p);
                lemma_has_pid(new_ps, p);
            } else {
                assert(n.jobs[w] == t.jobs[w]);
            }
            assert(n.pids[p] == t.pids[p]);
            assert(n.jobs[w].has_pid(p));
            assert(holds(n.jobs, w, n.pids[p], p));
        }
    }
    assert forall|i: int, k: int|
        0 <= i < n.jobs.len() && 0 <= k < n.jobs[i].processes.len() && (
        #[trigger] n.jobs[i].processes[k]).pid != NO_PID implies n.pids.contains_key(
        n.jobs[i].processes[k].pid,
    ) && n.pids[n.jobs[i].processes[k].pid] == n.jobs[i].job_id by {
        if i == i0 && k == k0 {
        } else {
            assert(n.jobs[i].processes[k] == t.jobs[i].processes[k]);
        }
    }
    lemma_same_states_same_choice(t.jobs, n.jobs, t.current);
}

/// Two tables with the same numbers and states choose the same current job.
pub proof fn lemma_same_states_same_choice(a: Seq<JobView>, b: Seq<JobView>, prefer: Option<usize>)
    requires
        a.len() == b.len(),
        forall|i: int|
            0 <= i < a.len() ==> (#[trigger] a[i]).job_id == b[i].job_id && a[i].state
                == b[i].state,
    ensures
        choose_current(a, prefer) == choose_current(b, prefer),
{
    lemma_same_last_stopped(a, b, a.len() as int);
    if prefer is Some {
        lemma_same_job_pos(a, b, prefer->0, 0);
        lemma_job_pos(a, prefer->0, 0);
    }
    if a.len() > 0 {
        lemma_last_stopped(a, a.len() as int);
        assert(a.last().job_id == b.last().job_id);
    }
}

proof fn lemma_same_last_stopped(a: Seq<JobView>, b: Seq<JobView>, upto: int)
    requires
        a.len() == b.len(),
        0 <= upto <= a.len(),
        forall|i: int|
            0 <= i < a.len() ==> (#[trigger] a[i]).job_id == b[i].job_id && a[i].state
                == b[i].state,
    ensures
        last_stopped(a, upto) == last_stopped(b, upto),
    decreases upto,
{
    if upto > 0 {
        assert(a[upto - 1].state == b[upto - 1].state);
        lemma_same_last_stopped(a, b, upto - 1);
    }
}

proof fn lemma_same_job_pos(a: Seq<JobView>, b: Seq<JobView>, id: usize, from: int)
    requires
        a.len() == b.len(),
        0 <= from <= a.len(),
        forall|i: int|
            0 <= i < a.len() ==> (#[trigger] a[i]).job_id == b[i].job_id && a[i].state
                == b[i].state,
    ensures
        job_pos(a, id, from) == job_pos(b, id, from),
    decreases a.len() - from,
{
    if from < a.len() {
        assert(a[from].job_id == b[from].job_id);
        lemma_same_job_pos(a, b, id, from + 1);
    }
}

proof fn lemma_same_pid_pos(a: Seq<ProcessView>, b: Seq<ProcessView>, pid: i32, from: int)
    requires
        a.len() == b.len(),
        0 <= from <= a.len(),
        forall|k: int| 0 <= k < a.len() ==> (#[trigger] a[k]).pid == b[k].pid,
    ensures
        pid_pos(a, pid, from) == pid_pos(b, pid, from),
    decreases a.len() - from,
{
    if from < a.len() {
        assert(a[from].pid == b[from].pid);
        lemma_same_pid_pos(a, b, pid, from + 1);
    }
}

/// Replacing a job by one with the same number and the same process ids, and
/// choosing the current job anew, keeps the table well formed.
pub proof fn lemma_update_wf(t: JobTableView, i: int, job: JobView, prefer: Option<usize>)
    requires
        t.wf(),
        0 <= i < t.jobs.len(),
        job.job_id == t.jobs[i].job_id,
        job.processes.len() == t.jobs[i].processes.len(),
        forall|k: int|
            0 <= k < job.processes.len() ==> (#[trigger] job.processes[k]).pid
                == t.jobs[i].processes[k].pid,
    ensures
        (JobTableView {
            jobs: t.jobs.update(i, job),
            current: choose_current(t.jobs.update(i, job), prefer),
            ..t
        }).wf(),
{
    let jobs = t.jobs.update(i, job);
    let n = JobTableView { jobs: jobs, current: choose_current(jobs, prefer), ..t };
    assert forall|a: int| 0 <= a < jobs.len() implies (#[trigger] jobs[a]).job_id
        == t.jobs[a].job_id by {}
    assert forall|p: i32| #[trigger] n.pids.contains_key(p) implies p != NO_PID && exists|w: int|
     #[trigger] holds(n.jobs, w, n.pids[p], p) by {
        let w = choose|w: int| holds(t.jobs, w, t.pids[p], p);
        if w == i {
            lemma_same_pid_pos(job.processes, t.jobs[i].processes, p, 0);
        } else {
            assert(jobs[w] == t.jobs[w]);
        }
        assert(holds(n.jobs, w, n.pids[p], p));
    }
    assert forall|a: int, k: int|
        0 <= a < n.jobs.len() && 0 <= k < n.jobs[a].processes.len() && (
        #[trigger] n.jobs[a].processes[k]).pid != NO_PID implies n.pids.contains_key(
        n.jobs[a].processes[k].pid,
    ) && n.pids[n.jobs[a].processes[k].pid] == n.jobs[a].job_id by {
        if a == i {
            assert(job.processes[k].pid == t.jobs[i].processes[k].pid);
        } else {
            assert(n.jobs[a].processes[k] == t.jobs[a].processes[k]);
        }
    }
    lemma_choose_current_stable(jobs, prefer);
}

/// Two tables with the same numbers find a job at the same position.
pub proof fn lemma_same_ids_pos(a: Seq<JobView>, b: Seq<JobView>, id: usize, from: int)
    requires
        a.len() == b.len(),
        0 <= from <= a.len(),
        forall|i: int| 0 <= i < a.len() ==> (#[trigger] a[i]).job_id == b[i].job_id,
    ensures
        job_pos(a, id, from) == job_pos(b, id, from),
    decreases a.len() - from,
{
    if from < a.len() {
        assert(a[from].job_id == b[from].job_id);
        lemma_same_ids_pos(a, b, id, from + 1);
    }
}

/// A job that was told to go on is found under its number as before.
pub proof fn lemma_resumed_job(t: JobTableView, id: usize, background: bool)
    requires
        t.has_job(id),
    ensures
        t.resumed(id, background).job(id) == Some(t.job(id)->0.resumed(background)),
{
    let i = t.pos(id);
    lemma_job_pos(t.jobs, id, 0);
    let after = t.resumed(id, background);
    assert forall|k: int| 0 <= k < t.jobs.len() implies (#[trigger] t.jobs[k]).job_id
        == after.jobs[k].job_id by {}
    lemma_same_ids_pos(t.jobs, after.jobs, id, 0);
}

/// A request to delete a job keeps the table well formed.
pub proof fn lemma_deleted_wf(t: JobTableView, id: usize)
    requires
        t.wf(),
    ensures
        t.deleted(id).wf(),
{
    let i = t.pos(id);
    lemma_job_pos(t.jobs, id, 0);
    if i >= t.jobs.len() {
    } else if t.jobs[i].kept() {
        lemma_update_wf(t, i, t.jobs[i].marked_stopped(), t.current);
    } else {
        let n = t.deleted(id);
        assert forall|a: int| 0 <= a < n.jobs.len() implies (#[trigger] n.jobs[a]) == t.jobs[if a
            < i {
            a
        } else {
            a + 1
        }] by {}
        assert forall|a: int, b: int| 0 <= a < b < n.jobs.len() implies (
        #[trigger] n.jobs[a]).job_id < (#[trigger] n.jobs[b]).job_id by {
            let a0 = if a < i {
                a
            } else {
                a + 1
            };
            let b0 = if b < i {
                b
            } else {
                b + 1
            };
            assert(t.jobs[a0].job_id < t.jobs[b0].job_id);
        }
        assert forall|a: int| 0 <= a < n.jobs.len() implies 1 <= (#[trigger] n.jobs[a]).job_id
            < n.next_id by {
            let a0 = if a < i {
                a
            } else {
                a + 1
            };
            assert(1 <= t.jobs[a0].job_id < t.next_id);
        }
        assert forall|p: i32| #[trigger] n.pids.contains_key(p) implies p != NO_PID && exists|
            w: int,
        |
         #[trigger] holds(n.jobs, w, n.pids[p], p) by {
            assert(t.pids.contains_key(p));
            let w = choose|w: int| holds(t.jobs, w, t.pids[p], p);
            let w1 = if w < i {
                w
            } else {
                w - 1
            };
            assert(w != i);
            assert(n.jobs[w1] == t.jobs[w]);
            assert(n.pids[p] == t.pids[p]);
            assert(holds(n.jobs, w1, n.pids[p], p));
        }
        assert forall|a: int, k: int|
            0 <= a < n.jobs.len() && 0 <= k < n.jobs[a].processes.len() && (
            #[trigger] n.jobs[a].processes[k]).pid != NO_PID implies n.pids.contains_key(
            n.jobs[a].processes[k].pid,
        ) && n.pids[n.jobs[a].processes[k].pid] == n.jobs[a].job_id by {
            let a0 = if a < i {
                a
            } else {
                a + 1
            };
            assert(n.jobs[a] == t.jobs[a0]);
            assert(t.jobs[a0].processes[k].pid != NO_PID);
            if a0 < i {
                assert(t.jobs[a0].job_id < t.jobs[i].job_id);
            } else {
                assert(t.jobs[i].job_id < t.jobs[a0].job_id);
            }
        }
        lemma_choose_current_stable(n.jobs, t.current);
    }
}

/// A report of the kernel keeps the table well formed.
pub proof fn lemma_recorded_wf(t: JobTableView, pid: i32, status: WaitStatus)
    requires
        t.wf(),
    ensures
        t.recorded(pid, status).wf(),
{
    if t.pids.contains_key(pid) && t.has_job(t.pids[pid]) {
        let id = t.pids[pid];
        let i = t.pos(id);
        lemma_job_pos(t.jobs, id, 0);
        let job = t.jobs[i].reported(pid, status);
        lemma_pid_pos(t.jobs[i].processes, pid, 0);
        lemma_update_wf(
            t,
            i,
            job,
            if job.state == JobState::Stopped {
                Some(id)
            } else {
                t.current
            },
        );
    }
}

/// Telling a job to go on keeps the table well formed.
pub proof fn lemma_resumed_wf(t: JobTableView, id: usize, background: bool)
    requires
        t.wf(),
    ensures
        t.resumed(id, background).wf(),
{
    let i = t.pos(id);
    lemma_job_pos(t.jobs, id, 0);
    if i < t.jobs.len() {
        lemma_update_wf(t, i, t.jobs[i].resumed(background), t.current);
    }
}

/// Proposing a current job keeps the table well formed.
pub proof fn lemma_proposed_wf(t: JobTableView, id: usize)
    requires
        t.wf(),
    ensures
        t.proposed(id).wf(),
{
    lemma_choose_current_stable(t.jobs, Some(id));
}

/// Why a job could not be created.
#[derive(Clone, Copy, Debug, PartialEq, Eq, Structural)]
pub enum JobError {
    /// One of the processes has an id that belongs to a job of the table.
    PidInUse,
    /// The job numbers are used up.
    TableFull,
}

/// The real process ids of `ps[from..]`, in order.
pub open spec fn real_pids(ps: Seq<ProcessView>, from: int) -> Seq<i32>
    decreases ps.len() - from,
{
    if from >= ps.len() {
        Seq::empty()
    } else if ps[from].pid != NO_PID {
        seq![ps[from].pid] + real_pids(ps, from + 1)
    } else {
        real_pids(ps, from + 1)
    }
}

/// The numbers of the finished jobs among `jobs[from..]`, in order.
pub open spec fn finished_ids(jobs: Seq<JobView>, from: int) -> Seq<usize>
    decreases jobs.len() - from,
{
    if from >= jobs.len() {
        Seq::empty()
    } else if jobs[from].state == JobState::Finished {
        seq![jobs[from].job_id] + finished_ids(jobs, from + 1)
    } else {
        finished_ids(jobs, from + 1)
    }
}

/// The table after requests to delete the jobs `ids[from..]`, one after the
/// other.
pub open spec fn deleted_all(t: JobTableView, ids: Seq<usize>, from: int) -> JobTableView
    decreases ids.len() - from,
{
    if from >= ids.len() {
        t
    } else {
        deleted_all(t.deleted(ids[from]), ids, from + 1)
    }
}

/// The listing of the jobs `jobs[from..]`: for each job a line with its number
/// in brackets, the marker `ps4` and the line of the job.
pub open spec fn listing(jobs: Seq<JobView>, ps4: Seq<char>, from: int) -> Seq<char>
    decreases jobs.len() - from,
{
    if from >= jobs.len() {
        Seq::empty()
    } else {
        "["@ + crate::text::decimal(jobs[from].job_id as nat) + "] "@ + ps4 + jobs[from].line()
            + "\n"@ + listing(jobs, ps4, from + 1)
    }
}

/// The table of jobs.
pub struct JobControl {
    job_table: Vec<Job>,
    pid_to_job: HashMap<i32, usize>,
    current_job: Option<usize>,
    next_job_id: usize,
    jobctl: bool,
}

impl View for JobControl {
    type V = JobTableView;

    closed spec fn view(&self) -> JobTableView {
        JobTableView {
            jobs: job_views(self.job_table@),
            pids: self.pid_to_job@,
            current: self.current_job,
            next_id: self.next_job_id,
            jobctl: self.jobctl,
        }
    }
}

/// Finding and deleting a job by a key: the number of the job, or the id of one
/// of its processes.
pub trait JobUtils<I> {
    /// The content of the table.
    spec fn table(&self) -> JobTableView;

    /// The job that the key names, if there is one.
    spec fn job_by(&self, key: I) -> Option<JobView>;

    /// The table after a request to delete the job that the key names.
    spec fn without(&self, key: I) -> JobTableView;

    /// Deletes the job that the key names, unless it is kept as stopped.
    fn delete_job(&mut self, key: I)
        requires
            old(self).table().wf(),
        ensures
            final(self).table() == old(self).without(key),
            final(self).table().wf(),
    ;

    /// The job that the key names.
    fn get_job(&self, key: I) -> (r: Option<&Job>)
        requires
            self.table().wf(),
        ensures
            r is Some <==> self.job_by(key) is Some,
            r matches Some(j) ==> Some(j@) == self.job_by(key),
    ;
}

impl JobControl {
    /// The invariant of the table: see `JobTableView::wf`.
    pub open spec fn wf(&self) -> bool {
        self@.wf()
    }

    /// An empty table.
    pub fn new() -> (jc: JobControl)
        ensures
            jc@ == (JobTableView {
                jobs: Seq::empty(),
                pids: Map::empty(),
                current: None,
                next_id: 1,
                jobctl: false,
            }),
            jc.wf(),
    {
        let jc = JobControl {
            job_table: Vec::new(),
            pid_to_job: HashMap::new(),
            current_job: None,
            jobctl: false,
            next_job_id: 1,
        };
        assert(jc@.jobs =~= Seq::empty());
        jc
    }

    /// The position of the job numbered `id`.
    fn find_job(&self, id: usize) -> (r: Option<usize>)
        ensures
            r is Some <==> self@.has_job(id),
            r matches Some(i) ==> i == self@.pos(id) && i < self.job_table.len(),
    {
        let mut i: usize = 0;
        while i < self.job_table.len()
            invariant
                i <= self.job_table.len(),
                job_pos(self@.jobs, id, 0) == job_pos(self@.jobs, id, i as int),
            decreases self.job_table.len() - i,
        {
            if self.job_table[i].job_id == id {
                return Some(i);
            }
            i += 1;
        }
        None
    }

    /// Chooses the current job anew, preferring `prefer`.
    fn fix_current(&mut self, prefer: Option<usize>)
        ensures
            final(self)@ == (JobTableView {
                current: choose_current(old(self)@.jobs, prefer),
                ..old(self)@
            }),
    {
        let n = self.job_table.len();
        if n == 0 {
            self.current_job = None;
            return ;
        }
        let mut k: usize = n;
        while k > 0 && !(self.job_table[k - 1].state == JobState::Stopped)
            invariant
                k <= n == self.job_table.len(),
                last_stopped(self@.jobs, n as int) == last_stopped(self@.jobs, k as int),
            decreases k,
        {
            k -= 1;
        }
        if k == 0 {
            self.current_job = Some(self.job_table[n - 1].job_id);
            return ;
        }
        let keep = match prefer {
            Some(c) => match self.find_job(c) {
                Some(i) => self.job_table[i].state == JobState::Stopped,
                None => false,
            },
            None => false,
        };
        if keep {
            self.current_job = prefer;
        } else {
            self.current_job = Some(self.job_table[k - 1].job_id);
        }
    }

    /// Creates a job of these processes, numbers it and enters the ids of its
    /// processes into the index. While no job is stopped, the new job becomes
    /// the current one. A process id that belongs to a job of the table, or a
    /// table whose numbers are used up, is refused and changes nothing.
    pub fn create_job(&mut self, processes: Vec<Process>, background: bool) -> (r: Result<
        JobId,
        JobError,
    >)
        requires
            old(self).wf(),
        ensures
            final(self).wf(),
            match r {
                Ok(id) => {
                    &&& !old(self)@.clashes(process_views(processes@))
                    &&& id == old(self)@.next_id
                    &&& id < usize::MAX
                    &&& final(self)@ == old(self)@.created(process_views(processes@), background)
                },
                Err(JobError::PidInUse) => {
                    &&& old(self)@.clashes(process_views(processes@))
                    &&& final(self)@ == old(self)@
                },
                Err(JobError::TableFull) => {
                    &&& !old(self)@.clashes(process_views(processes@))
                    &&& old(self)@.next_id == usize::MAX
                    &&& final(self)@ == old(self)@
                },
            },
    {
        let ghost ps = process_views(processes@);
        let ghost before = self@;
        let n = processes.len();
        let mut k: usize = 0;
        while k < n
            invariant
                k <= n == processes.len(),
                ps == process_views(processes@),
                self@ == before,
                before == old(self)@,
                before.wf(),
                before.clash_pos(ps, 0) == before.clash_pos(ps, k as int),
            decreases n - k,
        {
            let pid = processes[k].pid;
            if pid != NO_PID && self.pid_to_job.contains_key(&pid) {
                return Err(JobError::PidInUse);
            }
            k += 1;
        }
        if self.next_job_id == usize::MAX {
            return Err(JobError::TableFull);
        }
        let id = self.next_job_id;
        proof {
            lemma_clash_pos(before, ps, 0);
            assert forall|p: i32| pid_pos(ps, p, 0) >= 0 by {
                lemma_pid_pos(ps, p, 0);
            }
        }
        let mut k: usize = 0;
        while k < n
            invariant
                k <= n == processes.len(),
                ps == process_views(processes@),
                self.job_table == old(self).job_table,
                self.current_job == old(self).current_job,
                self.next_job_id == old(self).next_job_id,
                self.jobctl == old(self).jobctl,
                id == before.next_id,
                before == old(self)@,
                forall|j: int|
                    0 <= j < ps.len() ==> (#[trigger] ps[j]).pid == NO_PID
                        || !before.pids.contains_key(ps[j].pid),
                self.pid_to_job@ =~= Map::new(
                    |p: i32|
                        before.pids.contains_key(p) || (p != NO_PID && pid_pos(ps, p, 0) < k),
                    |p: i32|
                        if before.pids.contains_key(p) {
                            before.pids[p]
                        } else {
                            id
                        },
                ),
            decreases n - k,
        {
            let pid = processes[k].pid;
            proof {
                assert(ps[k as int].pid == pid);
                assert forall|p: i32| (pid_pos(ps, p, 0) < k + 1) == (pid_pos(ps, p, 0) < k || (p
                    == pid && pid_pos(ps, p, 0) == k)) by {
                    lemma_pid_pos(ps, p, 0);
                }
                lemma_pid_pos(ps, pid, 0);
            }
            if pid != NO_PID {
                self.pid_to_job.insert(pid, id);
            }
            k += 1;
        }
        let job = Job::new(processes, id, background);
        self.job_table.push(job);
        self.next_job_id = id + 1;
        let prefer = self.current_job;
        self.fix_current(prefer);
        proof {
            let target = before.created(ps, background);
            assert(self@.jobs =~= target.jobs);
            assert(self@.pids =~= target.pids);
            lemma_created_wf(before, ps, background);
        }
        Ok(id)
    }

    /// Binds the process id that `fork` gave to the first process of job
    /// `job_id` that was not forked yet, and enters it into the index. Tells
    /// whether it did; it changes nothing when the id is `NO_PID` or belongs to
    /// a job, or the job is not there, or all its processes are forked.
    pub fn update_pid_table(&mut self, job_id: JobId, pid: i32) -> (ok: bool)
        requires
            old(self).wf(),
        ensures
            final(self).wf(),
            ok == old(self)@.can_bind(job_id, pid),
            ok ==> final(self)@ == old(self)@.bound(job_id, pid),
            !ok ==> final(self)@ == old(self)@,
    {
        if pid == NO_PID || self.pid_to_job.contains_key(&pid) {
            return false;
        }
        match self.find_job(job_id) {
            None => false,
            Some(i) => match self.job_table[i].find_pid(NO_PID) {
                None => false,
                Some(k) => {
                    self.job_table[i].processes[k].pid = pid;
                    self.pid_to_job.insert(pid, job_id);
                    proof {
                        let target = old(self)@.bound(job_id, pid);
                        assert(self@.jobs[i as int].processes =~= target.jobs[i as int].processes);
                        assert(self@.jobs =~= target.jobs);
                        lemma_bound_wf(old(self)@, job_id, pid);
                    }
                    true
                },
            },
        }
    }

    /// Tells whether no job runs in the background.
    pub fn background_jobs(&self) -> (r: bool)
        ensures
            r == self@.no_background(),
    {
        let mut i: usize = 0;
        while i < self.job_table.len()
            invariant
                i <= self.job_table.len(),
                forall|j: int| 0 <= j < i ==> !(#[trigger] self@.jobs[j]).background,
            decreases self.job_table.len() - i,
        {
            if self.job_table[i].background {
                assert(self@.jobs[i as int].background);
                return false;
            }
            i += 1;
        }
        true
    }

    /// Tells whether job `job_id` is in the table and runs in the background.
    pub fn is_background_job(&self, job_id: usize) -> (r: bool)
        ensures
            r == (self@.job(job_id) is Some && self@.job(job_id)->0.background),
    {
        match self.find_job(job_id) {
            Some(i) => self.job_table[i].background,
            None => false,
        }
    }

    /// The current job.
    pub fn get_current_job(&self) -> (r: Option<&Job>)
        requires
            self.wf(),
        ensures
            r is Some <==> self@.current is Some,
            r matches Some(j) ==> Some(j@) == self@.job(self@.current->0),
    {
        match self.current_job {
            Some(id) => {
                proof {
                    law_current_job(self@);
                }
                match self.find_job(id) {
                    Some(i) => Some(&self.job_table[i]),
                    None => None,
                }
            },
            None => None,
        }
    }

    /// Proposes job `job_id` as the current job. The rule of the current job
    /// decides: see `choose_current`.
    pub fn set_current_job(&mut self, job_id: usize)
        requires
            old(self).wf(),
        ensures
            final(self).wf(),
            final(self)@ == old(self)@.proposed(job_id),
    {
        self.fix_current(Some(job_id));
        proof {
            lemma_proposed_wf(old(self)@, job_id);
        }
    }

    /// Tells whether job control is switched on.
    pub fn job_control(&self) -> (r: bool)
        ensures
            r == self@.jobctl,
    {
        self.jobctl
    }

    /// Switches job control on or off.
    pub fn set_job_control(&mut self, on: bool)
        ensures
            final(self)@ == (JobTableView { jobctl: on, ..old(self)@ }),
    {
        self.jobctl = on;
    }

    /// The number of jobs in the table.
    pub fn len(&self) -> (n: usize)
        ensures
            n == self@.jobs.len(),
    {
        self.job_table.len()
    }

    /// The jobs of the table, in the order of creation.
    pub fn get_job_table(&self) -> (r: &Vec<Job>)
        ensures
            job_views(r@) == self@.jobs,
    {
        &self.job_table
    }

    /// The job at position `i` of the table, in the order of creation.
    pub fn job_at(&self, i: usize) -> (j: &Job)
        requires
            i < self@.jobs.len(),
        ensures
            j@ == self@.jobs[i as int],
    {
        &self.job_table[i]
    }

    /// The job numbered `id`.
    pub fn job_by_id(&self, id: JobId) -> (r: Option<&Job>)
        ensures
            r is Some <==> self@.job(id) is Some,
            r matches Some(j) ==> Some(j@) == self@.job(id),
    {
        match self.find_job(id) {
            Some(i) => Some(&self.job_table[i]),
            None => None,
        }
    }

    /// The job that holds process `pid`.
    pub fn job_by_pid(&self, pid: i32) -> (r: Option<&Job>)
        ensures
            r is Some <==> self@.job_of_pid(pid) is Some,
            r matches Some(j) ==> Some(j@) == self@.job_of_pid(pid),
    {
        match self.pid_to_job.get(&pid) {
            Some(id) => self.job_by_id(*id),
            None => None,
        }
    }

    /// Handles a request to delete job `id`: see `JobTableView::deleted`.
    pub fn delete_job_by_id(&mut self, id: JobId)
        requires
            old(self).wf(),
        ensures
            final(self).wf(),
            final(self)@ == old(self)@.deleted(id),
    {
        let ghost before = self@;
        proof {
            lemma_deleted_wf(before, id);
        }
        let i = match self.find_job(id) {
            Some(i) => i,
            None => {
                return ;
            },
        };
        let leading_stopped = self.job_table[i].processes.len() > 0
            && self.job_table[i].processes[0].is_stopped();
        if self.job_table[i].state == JobState::Stopped || leading_stopped {
            if leading_stopped {
                let st = self.job_table[i].processes[0].status;
                self.job_table[i].stop_status = st.unwrap();
            }
            self.job_table[i].state = JobState::Stopped;
            let prefer = self.current_job;
            self.fix_current(prefer);
            proof {
                assert(self@.jobs =~= before.deleted(id).jobs);
            }
            return ;
        }
        let job = self.job_table.remove(i);
        let ghost ps = job@.processes;
        let n = job.processes.len();
        proof {
            assert forall|p: i32| pid_pos(ps, p, 0) >= 0 by {
                lemma_pid_pos(ps, p, 0);
            }
        }
        let mut k: usize = 0;
        while k < n
            invariant
                k <= n == job.processes.len(),
                ps == job@.processes,
                self.job_table@ == old(self).job_table@.remove(i as int),
                self.current_job == old(self).current_job,
                self.next_job_id == old(self).next_job_id,
                self.jobctl == old(self).jobctl,
                before == old(self)@,
                self.pid_to_job@ =~= Map::new(
                    |p: i32| before.pids.contains_key(p) && pid_pos(ps, p, 0) >= k,
                    |p: i32| before.pids[p],
                ),
            decreases n - k,
        {
            let pid = job.processes[k].pid;
            proof {
                assert(ps[k as int].pid == pid);
                assert forall|p: i32| (pid_pos(ps, p, 0) >= k + 1) == (pid_pos(ps, p, 0) >= k
                    && p != pid) by {
                    lemma_pid_pos(ps, p, 0);
                }
            }
            self.pid_to_job.remove(&pid);
            k += 1;
        }
        if self.job_table.len() == 0 {
            self.next_job_id = 1;
        }
        let prefer = self.current_job;
        self.fix_current(prefer);
        proof {
            let target = before.deleted(id);
            lemma_job_pos(before.jobs, id, 0);
            assert(self@.jobs =~= target.jobs);
            assert forall|p: i32| #[trigger]
                before.pids.contains_key(p) implies (pid_pos(ps, p, 0) >= n) == (before.pids[p]
                != id) by {
                law_pid_index(before, i as int, p);
            }
            assert(self@.pids =~= target.pids);
        }
    }

    /// Handles a request to delete the job that holds process `pid`.
    pub fn delete_job_by_pid(&mut self, pid: i32)
        requires
            old(self).wf(),
        ensures
            final(self).wf(),
            final(self)@ == old(self)@.deleted_pid(pid),
    {
        let found = match self.pid_to_job.get(&pid) {
            Some(id) => Some(*id),
            None => None,
        };
        match found {
            Some(id) => self.delete_job_by_id(id),
            None => {},
        }
    }

    /// Records what the kernel reported of process `pid`: the process holds the
    /// report, the state of its job follows its processes, and a job that
    /// becomes stopped becomes the current job. Gives the number of the job;
    /// a process that no job holds changes nothing.
    pub fn set_process_status(&mut self, pid: i32, status: WaitStatus) -> (r: Option<JobId>)
        requires
            old(self).wf(),
        ensures
            final(self).wf(),
            final(self)@ == old(self)@.recorded(pid, status),
            r == (if old(self)@.pids.contains_key(pid) {
                Some(old(self)@.pids[pid])
            } else {
                None
            }),
    {
        let ghost before = self@;
        proof {
            lemma_recorded_wf(before, pid, status);
        }
        let id = match self.pid_to_job.get(&pid) {
            Some(id) => *id,
            None => {
                return None;
            },
        };
        proof {
            let w = choose|w: int| holds(before.jobs, w, id, pid);
            lemma_job_pos_unique(before.jobs, w);
        }
        let i = match self.find_job(id) {
            Some(i) => i,
            None => {
                return Some(id);
            },
        };
        let ghost old_job = before.jobs[i as int];
        proof {
            lemma_pid_pos(old_job.processes, pid, 0);
        }
        self.job_table[i].set_process_status(pid, status);
        let state = self.job_table[i].state;
        let prefer = if state == JobState::Stopped {
            Some(id)
        } else {
            self.current_job
        };
        proof {
            assert(self@.jobs[i as int] == old_job.reported(pid, status));
            assert(self@.jobs =~= before.jobs.update(i as int, old_job.reported(pid, status)));
        }
        self.fix_current(prefer);
        Some(id)
    }

    /// Tells job `id` to go on, in the background or not: it runs again and the
    /// stops of its processes are forgotten. Gives the real process ids of the
    /// job, which are to be sent the signal to continue; `None` when the table
    /// has no such job.
    pub fn resume_job(&mut self, id: JobId, background: bool) -> (r: Option<Vec<i32>>)
        requires
            old(self).wf(),
        ensures
            final(self).wf(),
            final(self)@ == old(self)@.resumed(id, background),
            r is Some <==> old(self)@.has_job(id),
            r matches Some(pids) ==> pids@ == real_pids(old(self)@.job(id)->0.processes, 0),
    {
        let ghost before = self@;
        proof {
            lemma_resumed_wf(before, id, background);
        }
        let i = match self.find_job(id) {
            Some(i) => i,
            None => {
                return None;
            },
        };
        let ghost ps = before.jobs[i as int].processes;
        let n = self.job_table[i].processes.len();
        let mut pids: Vec<i32> = Vec::new();
        let mut k: usize = n;
        while k > 0
            invariant
                k <= n == ps.len(),
                i < self.job_table.len() == old(self).job_table.len(),
                n == self.job_table[i as int].processes.len(),
                self.current_job == old(self).current_job,
                self.next_job_id == old(self).next_job_id,
                self.jobctl == old(self).jobctl,
                self.pid_to_job == old(self).pid_to_job,
                before == old(self)@,
                ps == before.jobs[i as int].processes,
                forall|j: int|
                    0 <= j < self.job_table.len() && j != i ==> self.job_table[j] == old(
                        self,
                    ).job_table[j],
                self.job_table[i as int].job_id == old(self).job_table[i as int].job_id,
                self.job_table[i as int].stop_status == old(self).job_table[i as int].stop_status,
                self.job_table[i as int].state == old(self).job_table[i as int].state,
                self.job_table[i as int].background == old(self).job_table[i as int].background,
                self.job_table[i as int].sigint == old(self).job_table[i as int].sigint,
                self.job_table[i as int].waited == old(self).job_table[i as int].waited,
                self.job_table[i as int].used == old(self).job_table[i as int].used,
                self.job_table[i as int].changed == old(self).job_table[i as int].changed,
                forall|j: int| 0 <= j < k ==> (#[trigger] self@.jobs[i as int].processes[j]) == ps[j],
                forall|j: int|
                    k <= j < n ==> (#[trigger] self@.jobs[i as int].processes[j]) == (if ps[j].stopped() {
                        ProcessView { status: None, ..ps[j] }
                    } else {
                        ps[j]
                    }),
                pids@ == real_pids(ps, k as int).reverse(),
            decreases k,
        {
            k -= 1;
            let ghost prev = self@.jobs[i as int].processes;
            let pid = self.job_table[i].processes[k].pid;
            assert(prev[k as int] == ps[k as int]);
            if self.job_table[i].processes[k].is_stopped() {
                self.job_table[i].processes[k].status = None;
            }
            assert forall|j: int| 0 <= j < n && j != k implies (
            #[trigger] self@.jobs[i as int].processes[j]) == prev[j] by {}
            if pid != NO_PID {
                pids.push(pid);
                proof {
                    let rest = real_pids(ps, k as int + 1);
                    assert((seq![pid] + rest).reverse() =~= rest.reverse().push(pid));
                }
            }
        }
        let ghost mid = self@.jobs[i as int].processes;
        self.job_table[i].state = JobState::Running;
        self.job_table[i].background = background;
        let prefer = self.current_job;
        proof {
            let target = before.resumed(id, background);
            assert(self@.jobs[i as int].processes == mid);
            assert forall|j: int| 0 <= j < n implies mid[j] == target.jobs[i as int].processes[j] by {
                assert(mid[j] == (if ps[j].stopped() {
                    ProcessView { status: None, ..ps[j] }
                } else {
                    ps[j]
                }));
            }
            assert(self@.jobs[i as int].processes =~= target.jobs[i as int].processes);
            assert(self@.jobs =~= target.jobs);
        }
        self.fix_current(prefer);
        let mut out: Vec<i32> = Vec::new();
        let m = pids.len();
        let mut a: usize = m;
        while a > 0
            invariant
                a <= m == pids.len(),
                out@ == pids@.subrange(a as int, m as int).reverse(),
            decreases a,
        {
            a -= 1;
            out.push(pids[a]);
            assert(pids@.subrange(a as int, m as int).reverse() =~= pids@.subrange(
                a as int + 1,
                m as int,
            ).reverse().push(pids@[a as int]));
        }
        proof {
            assert(pids@.subrange(0, m as int) =~= pids@);
            assert(pids@.reverse() =~= real_pids(ps, 0));
        }
        Some(out)
    }

    /// Forgets every finished job, one request to delete after the other.
    pub fn clear_completed_jobs(&mut self)
        requires
            old(self).wf(),
        ensures
            final(self).wf(),
            final(self)@ == deleted_all(old(self)@, finished_ids(old(self)@.jobs, 0), 0),
    {
        let mut ids: Vec<usize> = Vec::new();
        let n = self.job_table.len();
        let mut i: usize = n;
        while i > 0
            invariant
                i <= n == self.job_table.len(),
                ids@.reverse() =~= finished_ids(self@.jobs, i as int),
            decreases i,
        {
            i -= 1;
            if self.job_table[i].state == JobState::Finished {
                let ghost rest = finished_ids(self@.jobs, i as int + 1);
                ids.push(self.job_table[i].job_id);
                assert((seq![self@.jobs[i as int].job_id] + rest) =~= ids@.reverse());
            }
        }
        let ghost all = finished_ids(self@.jobs, 0);
        let m = ids.len();
        let mut k: usize = 0;
        while k < m
            invariant
                k <= m == ids.len(),
                ids@.reverse() == all,
                self.wf(),
                self.jobctl == old(self).jobctl,
                deleted_all(self@, all, k as int) == deleted_all(old(self)@, all, 0),
            decreases m - k,
        {
            assert(all[k as int] == ids@[m - 1 - k]);
            self.delete_job_by_id(ids[m - 1 - k]);
            k += 1;
        }
    }

    /// The listing of the jobs, in the order of their numbers, one line each:
    /// the number in brackets, the marker `ps4`, and the line of the job.
    pub fn display(&self, ps4: &str) -> (r: String)
        ensures
            r@ == listing(self@.jobs, ps4@, 0),
    {
        let n = self.job_table.len();
        let mut out = String::new();
        let mut i: usize = n;
        while i > 0
            invariant
                i <= n == self.job_table.len(),
                out@ == listing(self@.jobs, ps4@, i as int),
            decreases i,
        {
            i -= 1;
            let mut line = String::new();
            push_str(&mut line, "[");
            push_decimal(&mut line, self.job_table[i].job_id as u64);
            push_str(&mut line, "] ");
            push_str(&mut line, ps4);
            let text = self.job_table[i].to_string();
            push_str(&mut line, text.as_str());
            push_str(&mut line, "\n");
            push_str(&mut line, out.as_str());
            out = line;
        }
        out
    }
}

/// Prepares a child that was just forked: it forgets what the shell knew of
/// signals, as `remove_handlers` says, and answers the signals whose default
/// disposition is to be installed: those that the shell disposes of in its
/// own way, and every signal that has a trap.
pub fn fork_reset(data: &mut TrapData) -> (r: ChildReset)
    ensures
        r.kinds@ == reset_kinds(),
        r.trapped@.to_set() == old(data).traps@.dom(),
        r.trapped@.no_duplicates(),
        final(data).traps == old(data).traps,
        final(data).signal_mode@ == Map::<i32, usize>::empty(),
        final(data).got_sig@ == Seq::new(old(data).got_sig@.len(), |i: int| false),
        final(data).pending_signal is None,
        !final(data).got_sigchld,
        !final(data).sigint_pending,
        final(data).suppress_sigint == old(data).suppress_sigint,
        !final(data).block_signals,
        final(data).interrupts_off_depth == 0,
{
    remove_handlers(data)
}

impl JobUtils<usize> for JobControl {
    open spec fn table(&self) -> JobTableView {
        self@
    }

    open spec fn job_by(&self, key: usize) -> Option<JobView> {
        self@.job(key)
    }

    open spec fn without(&self, key: usize) -> JobTableView {
        self@.deleted(key)
    }

    fn delete_job(&mut self, key: usize) {
        self.delete_job_by_id(key)
    }

    fn get_job(&self, key: usize) -> (r: Option<&Job>) {
        self.job_by_id(key)
    }
}

impl JobUtils<i32> for JobControl {
    open spec fn table(&self) -> JobTableView {
        self@
    }

    open spec fn job_by(&self, key: i32) -> Option<JobView> {
        self@.job_of_pid(key)
    }

    open spec fn without(&self, key: i32) -> JobTableView {
        self@.deleted_pid(key)
    }

    fn delete_job(&mut self, key: i32) {
        self.delete_job_by_pid(key)
    }

    fn get_job(&self, key: i32) -> (r: Option<&Job>) {
        self.job_by_pid(key)
    }
}

} // verus!
