use crate::error::PoolCreationError;
use std::collections::VecDeque;
use vstd::prelude::*;

verus! {

/// Where one submitted job stands.
#[derive(Clone, Copy, Debug, PartialEq, Eq)]
pub enum JobStatus {
    /// Waiting in the queue for a worker.
    Queued,
    /// Being run by the worker with this index.
    Running(usize),
    /// Run to completion.
    Done,
    /// Its run ended in a fault on the worker with this index.
    Lost(usize),
}

/// What one worker is doing.
#[derive(Clone, Copy, Debug, PartialEq, Eq)]
pub enum WorkerPhase {
    /// Ready to take the next job from the queue.
    Waiting,
    /// Running the job with this id.
    Executing(usize),
    /// Left its loop after it found the queue closed and empty.
    Exited,
    /// Stopped for good because the job with this id faulted.
    Faulted(usize),
}

/// What a waiting worker is told to do next.
#[derive(Clone, Copy, Debug, PartialEq, Eq)]
pub enum WorkerAction {
    /// Run the job with this id.
    Run(usize),
    /// The queue is empty but still open: block until something changes.
    Wait,
    /// The queue is closed and empty: leave the loop.
    Exit,
}

/// The message of the error for a pool of zero workers.
pub open spec fn zero_workers_message() -> Seq<char> {
    "Thread pool cannot be initilised with 0 threads"@
}

/// The moves a job may make between two states of a pool: it stays where it
/// is, a queued job leaves the queue, or a running job ends (done, or lost on
/// the worker that ran it).
pub open spec fn status_step(a: JobStatus, b: JobStatus) -> bool {
    a == b || match a {
        JobStatus::Queued => !(b is Queued),
        JobStatus::Running(w) => b == JobStatus::Done || b == JobStatus::Lost(w),
        _ => false,
    }
}

/// Every job known before is still known and has made only allowed moves.
pub open spec fn advances(a: Seq<JobStatus>, b: Seq<JobStatus>) -> bool {
    &&& a.len() <= b.len()
    &&& forall|j: int| 0 <= j < a.len() ==> status_step(#[trigger] a[j], b[j])
}

/// A worker in this phase runs no more jobs.
pub open spec fn stopped(p: WorkerPhase) -> bool {
    p is Exited || p is Faulted
}

/// The bookkeeping of a fixed-size pool: a FIFO queue of job ids, the status
/// of every job ever submitted (its id is its index), the phase of every
/// worker, and whether the queue still accepts jobs.
pub struct PoolState {
    queue: VecDeque<usize>,
    status: Vec<JobStatus>,
    phases: Vec<WorkerPhase>,
    open: bool,
}

impl PoolState {
    /// The ids waiting in the queue, front first.
    pub closed spec fn queue(&self) -> Seq<usize> {
        self.queue@
    }

    /// The status of every job submitted so far, by id.
    pub closed spec fn status(&self) -> Seq<JobStatus> {
        self.status@
    }

    /// The phase of every worker, by index.
    pub closed spec fn phases(&self) -> Seq<WorkerPhase> {
        self.phases@
    }

    /// Whether the queue still accepts jobs.
    pub closed spec fn is_open(&self) -> bool {
        self.open
    }

    closed spec fn queue_wf(&self) -> bool {
        &&& forall|i: int|
            0 <= i < self.queue@.len() ==> {
                &&& #[trigger] self.queue@[i] < self.status@.len()
                &&& self.status@[self.queue@[i] as int] == JobStatus::Queued
            }
        &&& forall|i: int, k: int|
            0 <= i < k < self.queue@.len() ==> #[trigger] self.queue@[i] < #[trigger] self.queue@[k]
        &&& forall|j: int|
            0 <= j < self.status@.len() && #[trigger] self.status@[j] == JobStatus::Queued
                ==> self.queue@.contains(j as usize)
    }

    closed spec fn links_wf(&self) -> bool {
        &&& forall|j: int|
            0 <= j < self.status@.len() ==> match #[trigger] self.status@[j] {
                JobStatus::Running(w) => w < self.phases@.len() && self.phases@[w as int]
                    == WorkerPhase::Executing(j as usize),
                JobStatus::Lost(w) => w < self.phases@.len() && self.phases@[w as int]
                    == WorkerPhase::Faulted(j as usize),
                _ => true,
            }
        &&& forall|w: int|
            0 <= w < self.phases@.len() ==> match #[trigger] self.phases@[w] {
                WorkerPhase::Executing(j) => j < self.status@.len() && self.status@[j as int]
                    == JobStatus::Running(w as usize),
                WorkerPhase::Faulted(j) => j < self.status@.len() && self.status@[j as int]
                    == JobStatus::Lost(w as usize),
                WorkerPhase::Exited => !self.open && self.queue@.len() == 0,
                _ => true,
            }
    }

    /// The pool's invariant: it has at least one worker; the queue holds
    /// exactly the queued jobs, oldest first; a job runs (or was lost) on a
    /// worker exactly when that worker executes (or faulted on) it; and a
    /// worker has exited only once the queue is closed and empty.
    pub closed spec fn wf(&self) -> bool {
        &&& self.phases@.len() > 0
        &&& self.status@.len() <= usize::MAX
        &&& self.phases@.len() <= usize::MAX
        &&& self.queue_wf()
        &&& self.links_wf()
    }

    /// A pool of `size` waiting workers with an empty, open queue.
    pub fn new(size: usize) -> (r: PoolState)
        requires
            size > 0,
        ensures
            r.wf(),
            r.is_open(),
            r.queue().len() == 0,
            r.status().len() == 0,
            r.phases() == Seq::new(size as nat, |w: int| WorkerPhase::Waiting),
    {
        let mut phases: Vec<WorkerPhase> = Vec::with_capacity(size);
        let mut i: usize = 0;
        while i < size
            invariant
                i <= size,
                phases@ == Seq::new(i as nat, |w: int| WorkerPhase::Waiting),
            decreases size - i,
        {
            phases.push(WorkerPhase::Waiting);
            i = i + 1;
            assert(phases@ =~= Seq::new(i as nat, |w: int| WorkerPhase::Waiting));
        }
        PoolState { queue: VecDeque::new(), status: Vec::new(), phases, open: true }
    }

    /// A pool of `size` waiting workers, or an error when `size` is zero.
    pub fn try_new(size: usize) -> (r: Result<PoolState, PoolCreationError>)
        ensures
            size == 0 <==> r is Err,
            r matches Err(e) ==> e.message() == zero_workers_message(),
            r matches Ok(p) ==> {
                &&& p.wf()
                &&& p.is_open()
                &&& p.queue().len() == 0
                &&& p.status().len() == 0
                &&& p.phases() == Seq::new(size as nat, |w: int| WorkerPhase::Waiting)
            },
    {
        if size == 0 {
            return Err(PoolCreationError::new("Thread pool cannot be initilised with 0 threads"));
        }
        Ok(PoolState::new(size))
    }

    /// Appends a new job to the back of the queue and returns its id, which
    /// is the number of jobs submitted before it.
    pub fn submit(&mut self) -> (id: usize)
        requires
            old(self).wf(),
            old(self).is_open(),
            old(self).status().len() < usize::MAX,
        ensures
            final(self).wf(),
            id == old(self).status().len(),
            final(self).status() == old(self).status().push(JobStatus::Queued),
            final(self).queue() == old(self).queue().push(id),
            final(self).phases() == old(self).phases(),
            final(self).is_open(),
            advances(old(self).status(), final(self).status()),
    {
        let id = self.status.len();
        self.status.push(JobStatus::Queued);
        self.queue.push_back(id);
        proof {
            let q0 = old(self).queue@;
            assert forall|j: int|
                0 <= j < self.status@.len() && #[trigger] self.status@[j] == JobStatus::Queued
                implies self.queue@.contains(j as usize) by {
                if j == id {
                    assert(self.queue@[q0.len() as int] == id);
                } else {
                    assert(old(self).status@[j] == JobStatus::Queued);
                    let i = choose|i: int| 0 <= i < q0.len() && q0[i] == j as usize;
                    assert(self.queue@[i] == j as usize);
                }
            }
            assert forall|w: int|
                0 <= w < self.phases@.len() implies #[trigger] self.phases@[w] != WorkerPhase::Exited by {
                assert(old(self).phases@[w] != WorkerPhase::Exited);
            }
        }
        id
    }

    /// Decides what the waiting worker `w` does next. It takes the job at the
    /// front of the queue if there is one; else it exits if the queue is
    /// closed; else it waits and nothing changes.
    pub fn next_action(&mut self, w: usize) -> (r: WorkerAction)
        requires
            old(self).wf(),
            w < old(self).phases().len(),
            old(self).phases()[w as int] == WorkerPhase::Waiting,
        ensures
            final(self).wf(),
            final(self).is_open() == old(self).is_open(),
            advances(old(self).status(), final(self).status()),
            old(self).queue().len() > 0 ==> {
                let j = old(self).queue()[0];
                &&& r == WorkerAction::Run(j)
                &&& old(self).status()[j as int] == JobStatus::Queued
                &&& forall|i: int| 0 < i < old(self).queue().len() ==> j < #[trigger] old(self).queue()[i]
                &&& final(self).queue() == old(self).queue().drop_first()
                &&& final(self).status() == old(self).status().update(j as int, JobStatus::Running(w))
                &&& final(self).phases() == old(self).phases().update(w as int, WorkerPhase::Executing(j))
            },
            old(self).queue().len() == 0 && !old(self).is_open() ==> {
                &&& r == WorkerAction::Exit
                &&& final(self).queue() == old(self).queue()
                &&& final(self).status() == old(self).status()
                &&& final(self).phases() == old(self).phases().update(w as int, WorkerPhase::Exited)
            },
            old(self).queue().len() == 0 && old(self).is_open() ==> {
                &&& r == WorkerAction::Wait
                &&& final(self).queue() == old(self).queue()
                &&& final(self).status() == old(self).status()
                &&& final(self).phases() == old(self).phases()
            },
    {
        match self.queue.pop_front() {
            Some(j) => {
                proof {
                    assert(old(self).queue@[0] == j);
                    assert(old(self).status@[j as int] == JobStatus::Queued);
                }
                self.status[j] = JobStatus::Running(w);
                self.phases[w] = WorkerPhase::Executing(j);
                proof {
                    let q0 = old(self).queue@;
                    let s0 = old(self).status@;
                    let p0 = old(self).phases@;
                    assert forall|i: int| 0 < i < q0.len() implies j < #[trigger] q0[i] by {
                        assert(q0[0] < q0[i]);
                    }
                    assert forall|i: int| 0 <= i < self.queue@.len() implies
                        #[trigger] self.queue@[i] != j && self.status@[self.queue@[i] as int] == JobStatus::Queued by {
                        assert(q0[0] < q0[i + 1]);
                    }
                    assert forall|x: int|
                        0 <= x < self.status@.len() && #[trigger] self.status@[x] == JobStatus::Queued
                        implies self.queue@.contains(x as usize) by {
                        assert(self.status@[j as int] == JobStatus::Running(w));
                        assert(x != j as int);
                        assert(s0[x] == JobStatus::Queued);
                        let i = choose|i: int| 0 <= i < q0.len() && q0[i] == x as usize;
                        assert(q0[0] == j);
                        assert((x as usize) as int == x);
                        assert(i != 0);
                        assert(self.queue@[i - 1] == x as usize);
                    }
                    assert forall|x: int| 0 <= x < self.status@.len() implies
                        !(#[trigger] s0[x] matches JobStatus::Running(v) && v == w) by {
                        if let JobStatus::Running(v) = s0[x] {
                            assert(p0[v as int] == WorkerPhase::Executing(x as usize));
                        }
                    }
                    assert forall|x: int| 0 <= x < self.status@.len() implies
                        !(#[trigger] s0[x] matches JobStatus::Lost(v) && v == w) by {
                        if let JobStatus::Lost(v) = s0[x] {
                            assert(p0[v as int] == WorkerPhase::Faulted(x as usize));
                        }
                    }
                    assert forall|v: int| 0 <= v < p0.len() implies
                        !(#[trigger] p0[v] matches WorkerPhase::Executing(y) && y == j)
                        && !(p0[v] matches WorkerPhase::Faulted(y) && y == j)
                        && p0[v] != WorkerPhase::Exited by {
                    }
                    assert(self.queue@ =~= q0.drop_first());
                }
                WorkerAction::Run(j)
            },
            None => {
                if self.open {
                    WorkerAction::Wait
                } else {
                    self.phases[w] = WorkerPhase::Exited;
                    proof {
                        let s0 = old(self).status@;
                        let p0 = old(self).phases@;
                        assert forall|x: int| 0 <= x < self.status@.len() implies
                            !(#[trigger] s0[x] matches JobStatus::Running(v) && v == w)
                            && !(s0[x] matches JobStatus::Lost(v) && v == w) by {
                            if let JobStatus::Running(v) = s0[x] {
                                assert(p0[v as int] == WorkerPhase::Executing(x as usize));
                            }
                            if let JobStatus::Lost(v) = s0[x] {
                                assert(p0[v as int] == WorkerPhase::Faulted(x as usize));
                            }
                        }
                    }
                    WorkerAction::Exit
                }
            },
        }
    }

    /// Records that worker `w` ran its job to the end: the job is done and
    /// the worker waits for the next one.
    pub fn complete(&mut self, w: usize)
        requires
            old(self).wf(),
            w < old(self).phases().len(),
            old(self).phases()[w as int] is Executing,
        ensures
            final(self).wf(),
            ({
                let j = old(self).phases()[w as int]->Executing_0;
                &&& old(self).status()[j as int] == JobStatus::Running(w)
                &&& final(self).status() == old(self).status().update(j as int, JobStatus::Done)
                &&& final(self).phases() == old(self).phases().update(w as int, WorkerPhase::Waiting)
            }),
            final(self).queue() == old(self).queue(),
            final(self).is_open() == old(self).is_open(),
            advances(old(self).status(), final(self).status()),
    {
        if let WorkerPhase::Executing(j) = self.phases[w] {
            self.status[j] = JobStatus::Done;
            self.phases[w] = WorkerPhase::Waiting;
            proof {
                let s0 = old(self).status@;
                let p0 = old(self).phases@;
                assert forall|x: int| 0 <= x < s0.len() && x != j as int implies
                    !(#[trigger] s0[x] matches JobStatus::Running(v) && v == w) by {
                    if let JobStatus::Running(v) = s0[x] {
                        assert(p0[v as int] == WorkerPhase::Executing(x as usize));
                    }
                }
                assert forall|i: int| 0 <= i < self.queue@.len() implies
                    #[trigger] self.queue@[i] != j by {
                    assert(s0[self.queue@[i] as int] == JobStatus::Queued);
                }
                assert forall|x: int|
                    0 <= x < self.status@.len() && #[trigger] self.status@[x] == JobStatus::Queued
                    implies self.queue@.contains(x as usize) by {
                    assert(s0[x] == JobStatus::Queued);
                }
                assert forall|v: int| 0 <= v < p0.len() && v != w as int implies
                    !(#[trigger] p0[v] matches WorkerPhase::Executing(y) && y == j) by {
                    assert(s0[j as int] == JobStatus::Running(w));
                    if let WorkerPhase::Executing(y) = p0[v] {
                        assert(s0[y as int] == JobStatus::Running(v as usize));
                    }
                }
            }
        }
    }

    /// Records that the job of worker `w` faulted: the job is lost and the
    /// worker is gone for the rest of the pool's life.
    pub fn fault(&mut self, w: usize)
        requires
            old(self).wf(),
            w < old(self).phases().len(),
            old(self).phases()[w as int] is Executing,
        ensures
            final(self).wf(),
            ({
                let j = old(self).phases()[w as int]->Executing_0;
                &&& old(self).status()[j as int] == JobStatus::Running(w)
                &&& final(self).status() == old(self).status().update(j as int, JobStatus::Lost(w))
                &&& final(self).phases() == old(self).phases().update(w as int, WorkerPhase::Faulted(j))
            }),
            final(self).queue() == old(self).queue(),
            final(self).is_open() == old(self).is_open(),
            advances(old(self).status(), final(self).status()),
    {
        if let WorkerPhase::Executing(j) = self.phases[w] {
            self.status[j] = JobStatus::Lost(w);
            self.phases[w] = WorkerPhase::Faulted(j);
            proof {
                let s0 = old(self).status@;
                let p0 = old(self).phases@;
                assert forall|x: int| 0 <= x < s0.len() && x != j as int implies
                    !(#[trigger] s0[x] matches JobStatus::Running(v) && v == w)
                    && !(s0[x] matches JobStatus::Lost(v) && v == w) by {
                    if let JobStatus::Running(v) = s0[x] {
                        assert(p0[v as int] == WorkerPhase::Executing(x as usize));
                    }
                    if let JobStatus::Lost(v) = s0[x] {
                        assert(p0[v as int] == WorkerPhase::Faulted(x as usize));
                    }
                }
                assert forall|i: int| 0 <= i < self.queue@.len() implies
                    #[trigger] self.queue@[i] != j by {
                    assert(s0[self.queue@[i] as int] == JobStatus::Queued);
                }
                assert forall|x: int|
                    0 <= x < self.status@.len() && #[trigger] self.status@[x] == JobStatus::Queued
                    implies self.queue@.contains(x as usize) by {
                    assert(s0[x] == JobStatus::Queued);
                }
                assert forall|v: int| 0 <= v < p0.len() && v != w as int implies
                    !(#[trigger] p0[v] matches WorkerPhase::Executing(y) && y == j) by {
                    assert(s0[j as int] == JobStatus::Running(w));
                    if let WorkerPhase::Executing(y) = p0[v] {
                        assert(s0[y as int] == JobStatus::Running(v as usize));
                    }
                }
            }
        }
    }

    /// The number of workers, fixed when the pool was made.
    pub fn worker_count(&self) -> (r: usize)
        ensures
            r == self.phases().len(),
    {
        self.phases.len()
    }

    /// The number of jobs submitted so far.
    pub fn job_count(&self) -> (r: usize)
        ensures
            r == self.status().len(),
    {
        self.status.len()
    }

    /// The number of jobs waiting in the queue.
    pub fn pending_count(&self) -> (r: usize)
        ensures
            r == self.queue().len(),
    {
        self.queue.len()
    }

    /// Whether the queue still accepts jobs.
    pub fn accepts_jobs(&self) -> (r: bool)
        ensures
            r == self.is_open(),
    {
        self.open
    }

    /// The status of job `j`.
    pub fn status_of(&self, j: usize) -> (r: JobStatus)
        requires
            j < self.status().len(),
        ensures
            r == self.status()[j as int],
    {
        self.status[j]
    }

    /// The phase of worker `w`.
    pub fn phase_of(&self, w: usize) -> (r: WorkerPhase)
        requires
            w < self.phases().len(),
        ensures
            r == self.phases()[w as int],
    {
        self.phases[w]
    }

    /// Whether every worker has left its loop, by exiting or by a fault, so
    /// that joining all of them returns at once.
    pub fn is_drained(&self) -> (r: bool)
        ensures
            r == forall|w: int| 0 <= w < self.phases().len() ==> stopped(#[trigger] self.phases()[w]),
    {
        let mut w: usize = 0;
        while w < self.phases.len()
            invariant
                w <= self.phases@.len(),
                forall|v: int| 0 <= v < w ==> stopped(#[trigger] self.phases@[v]),
            decreases self.phases@.len() - w,
        {
            match self.phases[w] {
                WorkerPhase::Exited | WorkerPhase::Faulted(_) => {},
                _ => {
                    assert(!stopped(self.phases()[w as int]));
                    return false;
                },
            }
            w = w + 1;
        }
        true
    }

    /// Closes the queue: no job is submitted after this, and a worker that
    /// finds the queue empty from now on exits.
    pub fn close(&mut self)
        requires
            old(self).wf(),
        ensures
            final(self).wf(),
            !final(self).is_open(),
            final(self).queue() == old(self).queue(),
            final(self).status() == old(self).status(),
            final(self).phases() == old(self).phases(),
    {
        self.open = false;
    }
}

/// Once a job has left the queue it never comes back to it, so no job is
/// handed to a worker twice.
pub proof fn lemma_left_queue_for_good(a: Seq<JobStatus>, b: Seq<JobStatus>, j: int)
    requires
        advances(a, b),
        0 <= j < a.len(),
        a[j] != JobStatus::Queued,
    ensures
        b[j] != JobStatus::Queued,
        a[j] is Done ==> b[j] is Done,
{
    assert(status_step(a[j], b[j]));
}

/// Moves made one after the other are moves too.
pub proof fn lemma_advances_trans(a: Seq<JobStatus>, b: Seq<JobStatus>, c: Seq<JobStatus>)
    requires
        advances(a, b),
        advances(b, c),
    ensures
        advances(a, c),
{
    assert forall|j: int| 0 <= j < a.len() implies status_step(#[trigger] a[j], c[j]) by {
        assert(status_step(a[j], b[j]));
        assert(status_step(b[j], c[j]));
    }
}

/// When every worker of a well-formed pool has exited, every job submitted
/// to it has been run to completion: none waits and none is running.
pub proof fn lemma_exited_pool_ran_everything(p: PoolState)
    requires
        p.wf(),
        forall|w: int| 0 <= w < p.phases().len() ==> #[trigger] p.phases()[w] == WorkerPhase::Exited,
    ensures
        !p.is_open(),
        p.queue().len() == 0,
        forall|j: int| 0 <= j < p.status().len() ==> #[trigger] p.status()[j] == JobStatus::Done,
{
    assert(p.phases()[0] == WorkerPhase::Exited);
    assert forall|j: int| 0 <= j < p.status().len() implies #[trigger] p.status()[j] == JobStatus::Done by {
        match p.status@[j] {
            JobStatus::Running(w) => {
                assert(p.phases@[w as int] == WorkerPhase::Exited);
            },
            JobStatus::Lost(w) => {
                assert(p.phases@[w as int] == WorkerPhase::Exited);
            },
            JobStatus::Queued => {
                assert(p.queue@.contains(j as usize));
            },
            JobStatus::Done => {},
        }
    }
}

/// When every worker of a well-formed pool has faulted, the pool is drained,
/// no worker can take a job, and every job still in the queue stays queued:
/// it is never run.
pub proof fn lemma_faulted_pool_strands_queue(p: PoolState)
    requires
        p.wf(),
        forall|w: int| 0 <= w < p.phases().len() ==> #[trigger] p.phases()[w] is Faulted,
    ensures
        forall|w: int| 0 <= w < p.phases().len() ==> stopped(#[trigger] p.phases()[w]),
        forall|w: int| 0 <= w < p.phases().len() ==> #[trigger] p.phases()[w] != WorkerPhase::Waiting,
        forall|i: int| 0 <= i < p.queue().len() ==> #[trigger] p.status()[p.queue()[i] as int]
            == JobStatus::Queued,
{
    assert forall|i: int| 0 <= i < p.queue().len() implies #[trigger] p.status()[p.queue()[i] as int]
        == JobStatus::Queued by {
        assert(p.queue@[i] < p.status@.len());
    }
}

} // verus!
