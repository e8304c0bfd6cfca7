use vstd::prelude::*;

use crate::{count_terminates, jobs_of, Message};

verus! {

/// The pool's lifecycle. It starts `Running` (remembering how many workers
/// were started eagerly), moves to `Cleaning` while termination signals are
/// being queued, and ends `Terminated`. Transitions only go forward, and only
/// teardown drives them.
#[derive(Clone, Copy, Debug, PartialEq, Eq, Structural)]
pub enum State {
    Running(usize),
    Cleaning,
    Terminated,
}

/// Moves the lifecycle one step forward. `Terminated` is terminal: no call
/// may ask to advance past it.
fn advance_state(s: &State) -> (r: State)
    requires
        !(s is Terminated),
    ensures
        s is Running ==> r is Cleaning,
        s is Cleaning ==> r is Terminated,
{
    match s {
        State::Running(_) => State::Cleaning,
        State::Cleaning => State::Terminated,
        State::Terminated => vstd::pervasive::unreached(),
    }
}

/// One worker's observable condition. `Idle` and `Busy` alternate while jobs
/// run; `Stopped` is reached once, by consuming a termination signal. A job
/// that fails kills its worker's thread mid-run: the worker is `Failed`, its
/// busy flag left set, and it never takes another message.
#[derive(Clone, Copy, Debug, PartialEq, Eq, Structural)]
pub enum WorkerState {
    Idle,
    Busy,
    Stopped,
    Failed,
}

/// One background worker: a stable identifier, its run state, how many jobs
/// it has finished, and whether its run loop has been started.
#[derive(Clone, Copy, Debug, PartialEq, Eq, Structural)]
pub struct Worker {
    pub id: usize,
    pub state: WorkerState,
    pub completed_jobs: u32,
    pub started: bool,
}

impl Worker {
    /// A fresh idle worker. Its run loop is not started yet.
    pub fn new(id: usize) -> (w: Worker)
        ensures
            w == (Worker { id, state: WorkerState::Idle, completed_jobs: 0, started: false }),
    {
        Worker { id, state: WorkerState::Idle, completed_jobs: 0, started: false }
    }

    /// Whether the worker's busy flag reads as set. A failed worker died
    /// mid-job, so its flag was never cleared and still reads busy.
    pub open spec fn spec_is_busy(self) -> bool {
        self.state is Busy || self.state is Failed
    }

    pub fn is_busy(&self) -> (b: bool)
        ensures
            b == self.spec_is_busy(),
    {
        match self.state {
            WorkerState::Busy => true,
            WorkerState::Failed => true,
            _ => false,
        }
    }

    pub fn completed_task_count(&self) -> (n: u32)
        ensures
            n == self.completed_jobs,
    {
        self.completed_jobs
    }

    /// Marks the worker's run loop as started.
    pub fn start(&mut self)
        ensures
            *final(self) == (Worker { started: true, ..*old(self) }),
    {
        self.started = true;
    }
}

/// Why a pool configuration was rejected. Configuration mistakes are caught
/// when the pool is put together and abort construction; nothing is clamped
/// silently.
#[derive(Clone, Copy, Debug, PartialEq, Eq, Structural)]
pub enum PoolConfigError {
    /// The ceiling must be positive.
    ZeroMaxPoolSize,
    /// The ceiling may not undercut the eager worker count already chosen.
    MaxBelowActive,
    /// The eager worker count, when set at all, must be positive.
    ZeroActivePoolSize,
    /// The eager worker count may not exceed the ceiling.
    ActiveAboveMax,
}

/// How many workers of the sequence have stopped.
pub open spec fn count_stopped(ws: Seq<Worker>) -> int
    decreases ws.len(),
{
    if ws.len() == 0 {
        0
    } else {
        count_stopped(ws.drop_last()) + (if ws.last().state is Stopped {
            1int
        } else {
            0int
        })
    }
}

/// The total number of jobs the workers have finished, as an unbounded sum.
pub open spec fn sum_counts(ws: Seq<Worker>) -> int
    decreases ws.len(),
{
    if ws.len() == 0 {
        0
    } else {
        sum_counts(ws.drop_last()) + ws.last().completed_jobs
    }
}

pub proof fn lemma_count_stopped_bounds(ws: Seq<Worker>)
    ensures
        0 <= count_stopped(ws) <= ws.len(),
    decreases ws.len(),
{
    if ws.len() > 0 {
        lemma_count_stopped_bounds(ws.drop_last());
    }
}

pub proof fn lemma_count_stopped_update(ws: Seq<Worker>, i: int, w: Worker)
    requires
        0 <= i < ws.len(),
    ensures
        count_stopped(ws.update(i, w)) == count_stopped(ws) - (if ws[i].state is Stopped {
            1int
        } else {
            0int
        }) + (if w.state is Stopped {
            1int
        } else {
            0int
        }),
    decreases ws.len(),
{
    if i == ws.len() - 1 {
        assert(ws.update(i, w).drop_last() =~= ws.drop_last());
    } else {
        lemma_count_stopped_update(ws.drop_last(), i, w);
        assert(ws.update(i, w).drop_last() =~= ws.drop_last().update(i, w));
    }
}

/// A worker sequence in which every stop has been counted is all stopped.
pub proof fn lemma_count_stopped_all(ws: Seq<Worker>)
    requires
        count_stopped(ws) == ws.len(),
    ensures
        forall|i: int| 0 <= i < ws.len() ==> (#[trigger] ws[i]).state is Stopped,
    decreases ws.len(),
{
    if ws.len() > 0 {
        lemma_count_stopped_bounds(ws.drop_last());
        lemma_count_stopped_all(ws.drop_last());
        assert forall|i: int| 0 <= i < ws.len() implies (#[trigger] ws[i]).state is Stopped by {
            if i < ws.len() - 1 {
                assert(ws[i] == ws.drop_last()[i]);
            }
        }
    }
}

pub proof fn lemma_sum_counts_nonneg(ws: Seq<Worker>)
    ensures
        0 <= sum_counts(ws),
    decreases ws.len(),
{
    if ws.len() > 0 {
        lemma_sum_counts_nonneg(ws.drop_last());
    }
}

pub proof fn lemma_sum_counts_update(ws: Seq<Worker>, i: int, w: Worker)
    requires
        0 <= i < ws.len(),
    ensures
        sum_counts(ws.update(i, w)) == sum_counts(ws) - ws[i].completed_jobs + w.completed_jobs,
    decreases ws.len(),
{
    if i == ws.len() - 1 {
        assert(ws.update(i, w).drop_last() =~= ws.drop_last());
    } else {
        lemma_sum_counts_update(ws.drop_last(), i, w);
        assert(ws.update(i, w).drop_last() =~= ws.drop_last().update(i, w));
    }
}

/// Each worker's own count is at most the pool-wide sum.
pub proof fn lemma_sum_counts_element_bound(ws: Seq<Worker>, i: int)
    requires
        0 <= i < ws.len(),
    ensures
        ws[i].completed_jobs <= sum_counts(ws),
    decreases ws.len(),
{
    lemma_sum_counts_nonneg(ws.drop_last());
    if i < ws.len() - 1 {
        lemma_sum_counts_element_bound(ws.drop_last(), i);
        assert(ws[i] == ws.drop_last()[i]);
    }
}

/// The total completed-job count as a 32-bit register would accumulate it:
/// each worker's count folded in with wrap-around.
pub open spec fn sum_counts_wrapped(ws: Seq<Worker>) -> int
    decreases ws.len(),
{
    if ws.len() == 0 {
        0
    } else {
        (sum_counts_wrapped(ws.drop_last()) + ws.last().completed_jobs) % 0x1_0000_0000
    }
}

/// The wrapped sum is the unbounded sum reduced modulo 2^32.
pub proof fn lemma_sum_counts_wrapped_is_mod(ws: Seq<Worker>)
    ensures
        sum_counts_wrapped(ws) == sum_counts(ws) % 0x1_0000_0000,
    decreases ws.len(),
{
    if ws.len() > 0 {
        let d = ws.drop_last();
        let c = ws.last().completed_jobs as int;
        lemma_sum_counts_wrapped_is_mod(d);
        vstd::arithmetic::div_mod::lemma_add_mod_noop(sum_counts(d), c, 0x1_0000_0000);
        vstd::arithmetic::div_mod::lemma_mod_twice(sum_counts(d), 0x1_0000_0000);
        lemma_sum_counts_nonneg(d);
        vstd::arithmetic::div_mod::lemma_small_mod(c as nat, 0x1_0000_0000);
    }
}

/// The worker pool: a bounded set of workers sharing one message queue. The
/// caller's side submits jobs through `execute`; each worker's run loop asks
/// for its next message through `next_message` and reports back through
/// `finish_job` or `fail_job`. The pool itself is the single decision point:
/// it owns the growth heuristic, the identifier assignment, the completion
/// accounting and the teardown protocol, while the surrounding program owns
/// the threads and the blocking.
#[derive(Debug)]
pub struct ThreadPool<J> {
    max_pool_size: usize,
    keep_alive_time: Option<u64>,
    state: State,
    workers: Vec<Worker>,
    queue: Vec<Message<J>>,
}

impl<J> ThreadPool<J> {
    /// The immutable ceiling on the worker set.
    pub closed spec fn spec_max(self) -> usize {
        self.max_pool_size
    }

    /// The idle-reclaim window the pool was configured with, in
    /// milliseconds. Accepted and carried, but no reclamation is driven by
    /// it: the worker set only grows.
    pub closed spec fn spec_keep_alive(self) -> Option<u64> {
        self.keep_alive_time
    }

    /// The lifecycle state.
    pub closed spec fn spec_state(self) -> State {
        self.state
    }

    /// The worker records, in creation order.
    pub closed spec fn spec_workers(self) -> Seq<Worker> {
        self.workers@
    }

    /// The messages still queued, oldest first.
    pub closed spec fn spec_queue(self) -> Seq<Message<J>> {
        self.queue@
    }

    /// The jobs still queued, oldest first.
    pub open spec fn spec_pending_jobs(self) -> Seq<J> {
        jobs_of(self.spec_queue())
    }

    /// The total completed-job count, as an unbounded sum.
    pub open spec fn spec_completed_total(self) -> int {
        sum_counts(self.spec_workers())
    }

    /// The growth test: there is no worker that could pick the next job up.
    /// True of an empty worker set, and of one whose busy flags all read
    /// set.
    pub open spec fn spec_no_available_worker(self) -> bool {
        self.spec_workers().len() == 0 || (forall|i: int|
            0 <= i < self.spec_workers().len() ==> (#[trigger] self.spec_workers()[i]).spec_is_busy())
    }

    /// The worker a growth step appends: the next sequential identifier,
    /// idle, nothing completed, its run loop started.
    pub open spec fn spec_fresh_worker(id: int) -> Worker {
        Worker { id: id as usize, state: WorkerState::Idle, completed_jobs: 0, started: true }
    }

    /// Well-formedness, established by construction and preserved by every
    /// operation:
    /// - the ceiling is positive and the worker set never exceeds it;
    /// - worker identifiers are the dense range `0..len`, so no two workers
    ///   share one;
    /// - every worker's run loop has been started;
    /// - while the pool is running, no termination signal is queued and no
    ///   worker has stopped;
    /// - once teardown has queued the termination signals, signals still
    ///   queued and workers already stopped account for every worker.
    pub open spec fn wf(self) -> bool {
        &&& 1 <= self.spec_max()
        &&& self.spec_workers().len() <= self.spec_max()
        &&& forall|i: int|
            0 <= i < self.spec_workers().len() ==> (#[trigger] self.spec_workers()[i]).id == i
        &&& forall|i: int|
            0 <= i < self.spec_workers().len() ==> (#[trigger] self.spec_workers()[i]).started
        &&& match self.spec_state() {
            State::Running(_) => count_terminates(self.spec_queue()) == 0 && count_stopped(
                self.spec_workers(),
            ) == 0,
            State::Cleaning => true,
            State::Terminated => count_terminates(self.spec_queue()) + count_stopped(
                self.spec_workers(),
            ) == self.spec_workers().len(),
        }
    }

    /// How many workers the pool holds.
    pub fn worker_count(&self) -> (n: usize)
        ensures
            n == self.spec_workers().len(),
    {
        self.workers.len()
    }

    /// The worker records, for inspection.
    pub fn workers(&self) -> (ws: &Vec<Worker>)
        ensures
            ws@ == self.spec_workers(),
    {
        &self.workers
    }

    /// How many messages are still queued.
    pub fn queue_len(&self) -> (n: usize)
        ensures
            n == self.spec_queue().len(),
    {
        self.queue.len()
    }

    /// The lifecycle state, for inspection.
    pub fn lifecycle(&self) -> (s: State)
        ensures
            s == self.spec_state(),
    {
        self.state
    }

    /// Builds a worker record for the given identifier.
    pub fn create_worker(id: usize) -> (w: Worker)
        ensures
            w == (Worker { id, state: WorkerState::Idle, completed_jobs: 0, started: false }),
    {
        Worker::new(id)
    }

    /// Submits one job. The message joins the back of the queue; before it
    /// does, the pool spawns exactly one new worker if the ceiling allows
    /// and no existing worker could pick the job up. The spawn test is a
    /// best-effort heuristic against the pool's current view, not a
    /// scheduling guarantee; what it does promise is the ceiling: the worker
    /// set never exceeds `spec_max`. Submission never waits for any job to
    /// finish.
    pub fn execute(&mut self, job: J)
        requires
            old(self).wf(),
            old(self).spec_state() is Running,
        ensures
            final(self).wf(),
            final(self).spec_state() == old(self).spec_state(),
            final(self).spec_max() == old(self).spec_max(),
            final(self).spec_keep_alive() == old(self).spec_keep_alive(),
            final(self).spec_queue() == old(self).spec_queue().push(Message::NewJob(job)),
            final(self).spec_pending_jobs() == old(self).spec_pending_jobs().push(job),
            final(self).spec_workers() == if old(self).spec_workers().len() < old(self).spec_max()
                && old(self).spec_no_available_worker() {
                old(self).spec_workers().push(
                    Self::spec_fresh_worker(old(self).spec_workers().len() as int),
                )
            } else {
                old(self).spec_workers()
            },
            final(self).spec_workers().len() <= final(self).spec_max(),
            final(self).spec_completed_total() == old(self).spec_completed_total(),
    {
        if self.max_pool_size > self.workers.len() && self.no_available_worker() {
            let id = self.workers.len();
            let mut new_worker = Self::create_worker(id);
            new_worker.start();
            proof {
                let ws = self.spec_workers();
                assert(ws.push(new_worker).drop_last() =~= ws);
            }
            self.workers.push(new_worker);
        }
        proof {
            crate::lemma_count_terminates_push(self.spec_queue(), Message::NewJob(job));
            crate::lemma_jobs_of_push(self.spec_queue(), Message::NewJob(job));
        }
        self.queue.push(Message::NewJob(job));
    }

    /// One turn of worker `w`'s run loop, up to the blocking point: take the
    /// oldest queued message, if any. A `NewJob` makes the worker busy and
    /// hands the job back to the caller to run; `Terminate` stops the worker
    /// for good. `None` means the queue is empty and the caller's thread
    /// would block waiting. Exactly one worker consumes any given message,
    /// and messages leave in submission order; which worker asks first is
    /// the caller's choice, as it is the threads' race in a live pool. On a
    /// running pool the message is always a job: termination signals exist
    /// only once teardown has begun.
    pub fn next_message(&mut self, w: usize) -> (m: Option<Message<J>>)
        requires
            old(self).wf(),
            w < old(self).spec_workers().len(),
            old(self).spec_workers()[w as int].state is Idle,
        ensures
            final(self).wf(),
            final(self).spec_max() == old(self).spec_max(),
            final(self).spec_keep_alive() == old(self).spec_keep_alive(),
            final(self).spec_state() == old(self).spec_state(),
            final(self).spec_workers().len() == old(self).spec_workers().len(),
            match m {
                None => {
                    &&& old(self).spec_queue().len() == 0
                    &&& *final(self) == *old(self)
                },
                Some(msg) => {
                    &&& old(self).spec_queue().len() > 0
                    &&& msg == old(self).spec_queue().first()
                    &&& final(self).spec_queue() == old(self).spec_queue().drop_first()
                    &&& final(self).spec_workers() == old(self).spec_workers().update(
                        w as int,
                        Worker {
                            state: if msg is NewJob {
                                WorkerState::Busy
                            } else {
                                WorkerState::Stopped
                            },
                            ..old(self).spec_workers()[w as int]
                        },
                    )
                },
            },
            old(self).spec_state() is Running ==> !(m == Some(Message::<J>::Terminate)),
            final(self).spec_completed_total() == old(self).spec_completed_total(),
    {
        if self.queue.len() == 0 {
            return None;
        }
        let ghost q0 = self.spec_queue();
        let ghost ws0 = self.spec_workers();
        let msg = self.queue.remove(0);
        proof {
            assert(self.spec_queue() =~= q0.drop_first());
            crate::lemma_take_first(q0);
        }
        let wk = self.workers[w];
        match msg {
            Message::NewJob(j) => {
                proof {
                    lemma_sum_counts_update(ws0, w as int, Worker { state: WorkerState::Busy, ..wk });
                    lemma_count_stopped_update(
                        ws0,
                        w as int,
                        Worker { state: WorkerState::Busy, ..wk },
                    );
                }
                self.workers.set(w, Worker { state: WorkerState::Busy, ..wk });
                Some(Message::NewJob(j))
            },
            Message::Terminate => {
                proof {
                    crate::lemma_count_terminates_nonneg(q0.drop_first());
                    lemma_sum_counts_update(
                        ws0,
                        w as int,
                        Worker { state: WorkerState::Stopped, ..wk },
                    );
                    lemma_count_stopped_update(
                        ws0,
                        w as int,
                        Worker { state: WorkerState::Stopped, ..wk },
                    );
                }
                self.workers.set(w, Worker { state: WorkerState::Stopped, ..wk });
                Some(Message::Terminate)
            },
        }
    }

    /// Worker `w` reports the job it was running as finished: it goes back
    /// to idle and its completed count moves up by one, wrapping as the live
    /// pool's shared counter does.
    pub fn finish_job(&mut self, w: usize)
        requires
            old(self).wf(),
            w < old(self).spec_workers().len(),
            old(self).spec_workers()[w as int].state is Busy,
        ensures
            final(self).wf(),
            final(self).spec_max() == old(self).spec_max(),
            final(self).spec_keep_alive() == old(self).spec_keep_alive(),
            final(self).spec_state() == old(self).spec_state(),
            final(self).spec_queue() == old(self).spec_queue(),
            final(self).spec_workers() == old(self).spec_workers().update(
                w as int,
                Worker {
                    state: WorkerState::Idle,
                    completed_jobs: vstd::wrapping::u32_specs::wrapping_add(
                        old(self).spec_workers()[w as int].completed_jobs,
                        1,
                    ),
                    ..old(self).spec_workers()[w as int]
                },
            ),
            old(self).spec_workers()[w as int].completed_jobs < u32::MAX
                ==> final(self).spec_completed_total() == old(self).spec_completed_total() + 1,
    {
        let ghost ws0 = self.spec_workers();
        let wk = self.workers[w];
        let done = Worker {
            state: WorkerState::Idle,
            completed_jobs: wk.completed_jobs.wrapping_add(1),
            ..wk
        };
        proof {
            lemma_sum_counts_update(ws0, w as int, done);
            lemma_count_stopped_update(ws0, w as int, done);
        }
        self.workers.set(w, done);
    }

    /// Worker `w` reports that the job it was running raised a failure. The
    /// failure is not caught: it kills the worker's thread mid-run, so the
    /// busy flag stays set, the count does not move, and the worker never
    /// takes another message. The pool does not notice and spawns no
    /// replacement.
    pub fn fail_job(&mut self, w: usize)
        requires
            old(self).wf(),
            w < old(self).spec_workers().len(),
            old(self).spec_workers()[w as int].state is Busy,
        ensures
            final(self).wf(),
            final(self).spec_max() == old(self).spec_max(),
            final(self).spec_keep_alive() == old(self).spec_keep_alive(),
            final(self).spec_state() == old(self).spec_state(),
            final(self).spec_queue() == old(self).spec_queue(),
            final(self).spec_workers() == old(self).spec_workers().update(
                w as int,
                Worker { state: WorkerState::Failed, ..old(self).spec_workers()[w as int] },
            ),
            final(self).spec_completed_total() == old(self).spec_completed_total(),
    {
        let ghost ws0 = self.spec_workers();
        let wk = self.workers[w];
        let dead = Worker { state: WorkerState::Failed, ..wk };
        proof {
            lemma_sum_counts_update(ws0, w as int, dead);
            lemma_count_stopped_update(ws0, w as int, dead);
        }
        self.workers.set(w, dead);
    }

    /// The total number of jobs the workers have completed, summed over the
    /// worker set as a 32-bit register accumulates it. With live workers
    /// this is an estimate: each addend is one worker's counter as some
    /// moment saw it. What is exact is the arithmetic: the result is the sum
    /// of the workers' counters, reduced modulo 2^32, and so equals that sum
    /// outright whenever it fits. The pool is not touched, so calls with no
    /// intervening change return the same value.
    pub fn completed_task_count(&self) -> (count: u32)
        ensures
            count as int == sum_counts(self.spec_workers()) % 0x1_0000_0000,
            sum_counts(self.spec_workers()) <= u32::MAX ==> count as int == sum_counts(
                self.spec_workers(),
            ),
    {
        let ghost ws = self.spec_workers();
        let n = self.workers.len();
        let mut count: u32 = 0;
        let mut i: usize = 0;
        while i < n
            invariant
                i <= n,
                n == self.spec_workers().len(),
                ws == self.spec_workers(),
                count as int == sum_counts_wrapped(ws.take(i as int)),
            decreases n - i,
        {
            proof {
                assert(ws.take(i + 1).drop_last() =~= ws.take(i as int));
                assert(ws.take(i + 1).last() == ws[i as int]);
            }
            count = count.wrapping_add(self.workers[i].completed_task_count());
            i = i + 1;
        }
        proof {
            assert(ws.take(n as int) =~= ws);
            lemma_sum_counts_wrapped_is_mod(ws);
            lemma_sum_counts_nonneg(ws);
            if sum_counts(ws) <= u32::MAX {
                vstd::arithmetic::div_mod::lemma_small_mod(
                    sum_counts(ws) as nat,
                    0x1_0000_0000,
                );
            }
        }
        count
    }

    /// The teardown protocol, run by whoever releases the pool. The
    /// lifecycle moves `Running` to `Cleaning`; one termination signal per
    /// worker joins the back of the queue, behind every job already
    /// submitted; the lifecycle moves on to `Terminated`. Jobs already
    /// queued are not dropped: they still sit ahead of the signals. After
    /// this returns, the releasing thread's remaining duty is to wait until
    /// every worker has consumed its signal — `lemma_teardown_complete`
    /// states that an emptied queue means exactly that. Teardown happens
    /// once: the pool never leaves `Terminated`.
    pub fn shutdown(&mut self)
        requires
            old(self).wf(),
            old(self).spec_state() is Running,
        ensures
            final(self).wf(),
            final(self).spec_state() is Terminated,
            final(self).spec_max() == old(self).spec_max(),
            final(self).spec_keep_alive() == old(self).spec_keep_alive(),
            final(self).spec_workers() == old(self).spec_workers(),
            final(self).spec_queue() == old(self).spec_queue() + Seq::new(
                old(self).spec_workers().len() as nat,
                |i: int| Message::<J>::Terminate,
            ),
            final(self).spec_pending_jobs() == old(self).spec_pending_jobs(),
            count_terminates(final(self).spec_queue()) == final(self).spec_workers().len(),
            final(self).spec_completed_total() == old(self).spec_completed_total(),
    {
        self.state = advance_state(&self.state);
        let ghost q0 = self.spec_queue();
        let ghost p0 = *self;
        let n = self.workers.len();
        let mut i: usize = 0;
        while i < n
            invariant
                i <= n,
                n == self.spec_workers().len(),
                self.spec_state() is Cleaning,
                self.spec_workers() == p0.spec_workers(),
                self.spec_max() == p0.spec_max(),
                self.spec_keep_alive() == p0.spec_keep_alive(),
                self.spec_queue() == q0 + Seq::new(i as nat, |k: int| Message::<J>::Terminate),
                count_terminates(self.spec_queue()) == count_terminates(q0) + i,
                jobs_of(self.spec_queue()) == jobs_of(q0),
            decreases n - i,
        {
            proof {
                crate::lemma_count_terminates_push(self.spec_queue(), Message::<J>::Terminate);
                crate::lemma_jobs_of_push(self.spec_queue(), Message::<J>::Terminate);
                assert(self.spec_queue().push(Message::<J>::Terminate) =~= q0 + Seq::new(
                    (i + 1) as nat,
                    |k: int| Message::<J>::Terminate,
                ));
            }
            self.queue.push(Message::Terminate);
            i = i + 1;
        }
        self.state = advance_state(&self.state);
        proof {
            assert(self.spec_queue() =~= q0 + Seq::new(
                self.spec_workers().len() as nat,
                |k: int| Message::<J>::Terminate,
            ));
        }
    }

    /// Runs worker `w`'s loop until the queue is empty, collecting the jobs
    /// it would execute. This is the pool's dispatch discipline played out
    /// on one thread: the result is exactly the pending jobs, oldest first,
    /// each handed out once, and the worker's completed count moves up by
    /// one per job. On a running pool no termination signal can be queued,
    /// so the worker ends idle, ready for more.
    pub fn drain_with(&mut self, w: usize) -> (jobs: Vec<J>)
        requires
            old(self).wf(),
            old(self).spec_state() is Running,
            w < old(self).spec_workers().len(),
            old(self).spec_workers()[w as int].state is Idle,
        ensures
            final(self).wf(),
            final(self).spec_state() == old(self).spec_state(),
            final(self).spec_max() == old(self).spec_max(),
            final(self).spec_keep_alive() == old(self).spec_keep_alive(),
            final(self).spec_queue().len() == 0,
            jobs@ == old(self).spec_pending_jobs(),
            final(self).spec_workers().len() == old(self).spec_workers().len(),
            forall|i: int|
                0 <= i < old(self).spec_workers().len() && i != w ==> final(self).spec_workers()[i]
                    == old(self).spec_workers()[i],
            final(self).spec_workers()[w as int].state is Idle,
            final(self).spec_workers()[w as int].id == old(self).spec_workers()[w as int].id,
            final(self).spec_workers()[w as int].started == old(self).spec_workers()[
                w as int
            ].started,
            final(self).spec_workers()[w as int].completed_jobs as int
                == (old(self).spec_workers()[w as int].completed_jobs + jobs@.len())
                % 0x1_0000_0000,
            old(self).spec_completed_total() + jobs@.len() <= u32::MAX
                ==> final(self).spec_completed_total() == old(self).spec_completed_total()
                + jobs@.len(),
    {
        let ghost p0 = *self;
        let ghost c0 = p0.spec_workers()[w as int].completed_jobs as int;
        let mut jobs: Vec<J> = Vec::new();
        proof {
            vstd::arithmetic::div_mod::lemma_small_mod(c0 as nat, 0x1_0000_0000);
        }
        while self.queue_len() > 0
            invariant
                self.wf(),
                self.spec_state() is Running,
                self.spec_state() == p0.spec_state(),
                self.spec_max() == p0.spec_max(),
                self.spec_keep_alive() == p0.spec_keep_alive(),
                w < self.spec_workers().len(),
                self.spec_workers().len() == p0.spec_workers().len(),
                forall|i: int|
                    0 <= i < p0.spec_workers().len() && i != w ==> self.spec_workers()[i]
                        == p0.spec_workers()[i],
                self.spec_workers()[w as int].state is Idle,
                self.spec_workers()[w as int].id == p0.spec_workers()[w as int].id,
                self.spec_workers()[w as int].started == p0.spec_workers()[w as int].started,
                self.spec_workers()[w as int].completed_jobs as int == (c0 + jobs@.len())
                    % 0x1_0000_0000,
                p0.spec_pending_jobs() == jobs@ + self.spec_pending_jobs(),
            decreases self.spec_queue().len(),
        {
            let ghost qc = self.spec_queue();
            proof {
                // a running pool queues no termination signal, so the front
                // message is a job
                crate::lemma_no_terminate_means_all_jobs(qc);
                crate::lemma_take_first(qc);
            }
            match self.next_message(w) {
                Some(Message::NewJob(j)) => {
                    proof {
                        vstd::arithmetic::div_mod::lemma_mod_bound(
                            c0 + jobs@.len(),
                            0x1_0000_0000,
                        );
                        vstd::arithmetic::div_mod::lemma_add_mod_noop(
                            c0 + jobs@.len(),
                            1,
                            0x1_0000_0000,
                        );
                        vstd::arithmetic::div_mod::lemma_mod_twice(
                            c0 + jobs@.len(),
                            0x1_0000_0000,
                        );
                        vstd::arithmetic::div_mod::lemma_small_mod(1nat, 0x1_0000_0000);
                    }
                    self.finish_job(w);
                    jobs.push(j);
                },
                Some(Message::Terminate) => {
                    proof {
                        // unreachable: the front message is a job
                        assert(false);
                    }
                },
                None => {
                    proof {
                        // unreachable: the loop runs only on a non-empty queue
                        assert(false);
                    }
                },
            }
        }
        proof {
            assert(self.spec_pending_jobs() =~= Seq::<J>::empty());
            assert(p0.spec_pending_jobs() =~= jobs@);
            if p0.spec_completed_total() + jobs@.len() <= u32::MAX {
                lemma_sum_counts_element_bound(p0.spec_workers(), w as int);
                vstd::arithmetic::div_mod::lemma_small_mod(
                    (c0 + jobs@.len()) as nat,
                    0x1_0000_0000,
                );
                lemma_sum_counts_update(
                    p0.spec_workers(),
                    w as int,
                    self.spec_workers()[w as int],
                );
                assert(self.spec_workers() =~= p0.spec_workers().update(
                    w as int,
                    self.spec_workers()[w as int],
                ));
            }
        }
        jobs
    }

    fn no_available_worker(&self) -> (b: bool)
        ensures
            b == self.spec_no_available_worker(),
    {
        let n = self.workers.len();
        if n == 0 {
            return true;
        }
        let mut i: usize = 0;
        while i < n
            invariant
                i <= n,
                n == self.spec_workers().len(),
                forall|k: int| 0 <= k < i ==> (#[trigger] self.spec_workers()[k]).spec_is_busy(),
            decreases n - i,
        {
            if !self.workers[i].is_busy() {
                return false;
            }
            i = i + 1;
        }
        true
    }
}

/// Assembles a pool step by step: a ceiling, an eager worker count, an
/// optional idle-reclaim window, an optional job queued ahead of all
/// submissions. Each setter validates its argument against the rest of the
/// configuration and refuses a combination the pool could not honour, so
/// that `build` always starts from a sound configuration.
#[derive(Debug)]
pub struct ThreadPoolBuilder<J> {
    max_pool_size: usize,
    active_pool_size: usize,
    keep_alive_time: Option<u64>,
    initial_job: Option<J>,
}

impl<J> ThreadPoolBuilder<J> {
    pub closed spec fn spec_max_pool_size(self) -> usize {
        self.max_pool_size
    }

    pub closed spec fn spec_active_pool_size(self) -> usize {
        self.active_pool_size
    }

    pub closed spec fn spec_keep_alive_time(self) -> Option<u64> {
        self.keep_alive_time
    }

    pub closed spec fn spec_initial_job(self) -> Option<J> {
        self.initial_job
    }

    /// A sound configuration: a positive ceiling that the eager worker
    /// count does not exceed. `new` establishes it and every setter keeps
    /// it.
    pub open spec fn wf(self) -> bool {
        &&& 1 <= self.spec_max_pool_size()
        &&& self.spec_active_pool_size() <= self.spec_max_pool_size()
    }

    /// The default configuration: a ceiling of one, no eager workers, no
    /// reclaim window, no initial job.
    pub fn new() -> (b: ThreadPoolBuilder<J>)
        ensures
            b.wf(),
            b.spec_max_pool_size() == 1,
            b.spec_active_pool_size() == 0,
            b.spec_keep_alive_time() is None,
            b.spec_initial_job() is None,
    {
        ThreadPoolBuilder {
            max_pool_size: 1,
            active_pool_size: 0,
            keep_alive_time: None,
            initial_job: None,
        }
    }

    /// Sets the ceiling. Zero is rejected, as is a ceiling below the eager
    /// worker count already chosen; exactly otherwise the setter succeeds.
    pub fn max_pool_size(self, n: usize) -> (r: Result<ThreadPoolBuilder<J>, PoolConfigError>)
        ensures
            n == 0 ==> r == Result::<ThreadPoolBuilder<J>, PoolConfigError>::Err(
                PoolConfigError::ZeroMaxPoolSize,
            ),
            0 < n < self.spec_active_pool_size() ==> r == Result::<
                ThreadPoolBuilder<J>,
                PoolConfigError,
            >::Err(PoolConfigError::MaxBelowActive),
            n >= 1 && n >= self.spec_active_pool_size() ==> {
                &&& r is Ok
                &&& r->Ok_0.spec_max_pool_size() == n
                &&& r->Ok_0.spec_active_pool_size() == self.spec_active_pool_size()
                &&& r->Ok_0.spec_keep_alive_time() == self.spec_keep_alive_time()
                &&& r->Ok_0.spec_initial_job() == self.spec_initial_job()
                &&& r->Ok_0.wf()
            },
    {
        if n == 0 {
            Err(PoolConfigError::ZeroMaxPoolSize)
        } else if n < self.active_pool_size {
            Err(PoolConfigError::MaxBelowActive)
        } else {
            Ok(ThreadPoolBuilder { max_pool_size: n, ..self })
        }
    }

    /// Sets the eager worker count, the workers started as soon as the pool
    /// is built. Zero is rejected, as is a count above the ceiling; exactly
    /// otherwise the setter succeeds.
    pub fn active_pool_size(self, n: usize) -> (r: Result<ThreadPoolBuilder<J>, PoolConfigError>)
        ensures
            n == 0 ==> r == Result::<ThreadPoolBuilder<J>, PoolConfigError>::Err(
                PoolConfigError::ZeroActivePoolSize,
            ),
            n > self.spec_max_pool_size() ==> r == Result::<
                ThreadPoolBuilder<J>,
                PoolConfigError,
            >::Err(PoolConfigError::ActiveAboveMax),
            1 <= n <= self.spec_max_pool_size() ==> {
                &&& r is Ok
                &&& r->Ok_0.spec_max_pool_size() == self.spec_max_pool_size()
                &&& r->Ok_0.spec_active_pool_size() == n
                &&& r->Ok_0.spec_keep_alive_time() == self.spec_keep_alive_time()
                &&& r->Ok_0.spec_initial_job() == self.spec_initial_job()
                &&& r->Ok_0.wf()
            },
    {
        if n == 0 {
            Err(PoolConfigError::ZeroActivePoolSize)
        } else if n > self.max_pool_size {
            Err(PoolConfigError::ActiveAboveMax)
        } else {
            Ok(ThreadPoolBuilder { active_pool_size: n, ..self })
        }
    }

    /// Sets the idle-reclaim window, in milliseconds. The pool carries the
    /// window but drives no reclamation from it; the worker set only grows.
    pub fn keep_alive_time(self, time: u64) -> (b: ThreadPoolBuilder<J>)
        ensures
            b.spec_max_pool_size() == self.spec_max_pool_size(),
            b.spec_active_pool_size() == self.spec_active_pool_size(),
            b.spec_keep_alive_time() == Some(time),
            b.spec_initial_job() == self.spec_initial_job(),
            self.wf() ==> b.wf(),
    {
        ThreadPoolBuilder { keep_alive_time: Some(time), ..self }
    }

    /// Sets a job the pool queues before any caller-submitted one.
    pub fn initial_job(self, initial_job: J) -> (b: ThreadPoolBuilder<J>)
        ensures
            b.spec_max_pool_size() == self.spec_max_pool_size(),
            b.spec_active_pool_size() == self.spec_active_pool_size(),
            b.spec_keep_alive_time() == self.spec_keep_alive_time(),
            b.spec_initial_job() == Some(initial_job),
            self.wf() ==> b.wf(),
    {
        ThreadPoolBuilder { initial_job: Some(initial_job), ..self }
    }

    /// Builds the pool: the eager workers are created with the dense
    /// identifiers `0..n` and started, the initial job, if any, is queued,
    /// and the lifecycle starts `Running`.
    pub fn build(self) -> (p: ThreadPool<J>)
        requires
            self.wf(),
        ensures
            p.wf(),
            p.spec_state() == State::Running(self.spec_active_pool_size()),
            p.spec_max() == self.spec_max_pool_size(),
            p.spec_keep_alive() == self.spec_keep_alive_time(),
            p.spec_workers().len() == self.spec_active_pool_size(),
            forall|i: int|
                0 <= i < self.spec_active_pool_size() ==> #[trigger] p.spec_workers()[i]
                    == ThreadPool::<J>::spec_fresh_worker(i),
            p.spec_queue() == match self.spec_initial_job() {
                Some(j) => seq![Message::<J>::NewJob(j)],
                None => Seq::<Message<J>>::empty(),
            },
            p.spec_pending_jobs() == match self.spec_initial_job() {
                Some(j) => seq![j],
                None => Seq::<J>::empty(),
            },
            p.spec_completed_total() == 0,
    {
        let n = self.active_pool_size;
        let mut workers: Vec<Worker> = Vec::new();
        let mut id: usize = 0;
        while id < n
            invariant
                id <= n,
                workers@.len() == id,
                forall|i: int|
                    0 <= i < id ==> #[trigger] workers@[i] == ThreadPool::<J>::spec_fresh_worker(i),
                count_stopped(workers@) == 0,
                sum_counts(workers@) == 0,
            decreases n - id,
        {
            let mut worker = ThreadPool::<J>::create_worker(id);
            worker.start();
            proof {
                assert(workers@.push(worker).drop_last() =~= workers@);
            }
            workers.push(worker);
            id = id + 1;
        }
        let mut queue: Vec<Message<J>> = Vec::new();
        match self.initial_job {
            Some(job) => {
                queue.push(Message::NewJob(job));
                proof {
                    assert(queue@ =~= seq![Message::<J>::NewJob(self.spec_initial_job()->0)]);
                    crate::lemma_take_first(queue@);
                }
            },
            None => {},
        }
        ThreadPool {
            max_pool_size: self.max_pool_size,
            keep_alive_time: self.keep_alive_time,
            state: State::Running(self.active_pool_size),
            workers,
            queue,
        }
    }
}

/// Ready-made pool shapes.
pub struct ThreadPoolFactory;

impl ThreadPoolFactory {
    /// A fixed pool of exactly one worker.
    pub fn new_single_threaded<J>() -> (p: ThreadPool<J>)
        ensures
            p.wf(),
            p.spec_state() == State::Running(1),
            p.spec_max() == 1,
            p.spec_keep_alive() is None,
            p.spec_workers().len() == 1,
            p.spec_workers()[0] == ThreadPool::<J>::spec_fresh_worker(0),
            p.spec_queue() == Seq::<Message<J>>::empty(),
            p.spec_completed_total() == 0,
    {
        match Self::new_fixed_sized::<J>(1) {
            Ok(p) => p,
            Err(_) => vstd::pervasive::unreached(),
        }
    }

    /// A fixed pool: ceiling and eager worker count both `thread_count`, so
    /// the worker set never grows or shrinks. A zero count is rejected.
    pub fn new_fixed_sized<J>(thread_count: usize) -> (r: Result<ThreadPool<J>, PoolConfigError>)
        ensures
            thread_count == 0 ==> r == Result::<ThreadPool<J>, PoolConfigError>::Err(
                PoolConfigError::ZeroMaxPoolSize,
            ),
            thread_count >= 1 ==> {
                &&& r is Ok
                &&& r->Ok_0.wf()
                &&& r->Ok_0.spec_state() == State::Running(thread_count)
                &&& r->Ok_0.spec_max() == thread_count
                &&& r->Ok_0.spec_keep_alive() is None
                &&& r->Ok_0.spec_workers().len() == thread_count
                &&& forall|i: int|
                    0 <= i < thread_count ==> #[trigger] r->Ok_0.spec_workers()[i]
                        == ThreadPool::<J>::spec_fresh_worker(i)
                &&& r->Ok_0.spec_queue() == Seq::<Message<J>>::empty()
                &&& r->Ok_0.spec_completed_total() == 0
            },
    {
        let builder = ThreadPoolBuilder::<J>::new();
        match builder.max_pool_size(thread_count) {
            Err(e) => Err(e),
            Ok(builder) => match builder.active_pool_size(thread_count) {
                Err(e) => Err(e),
                Ok(builder) => Ok(builder.build()),
            },
        }
    }

    /// A lazy pool: no eager worker, an effectively unbounded ceiling, and
    /// growth driven entirely by submission.
    pub fn new_lazy<J>() -> (p: ThreadPool<J>)
        ensures
            p.wf(),
            p.spec_state() == State::Running(0),
            p.spec_max() == usize::MAX,
            p.spec_keep_alive() is None,
            p.spec_workers().len() == 0,
            p.spec_queue() == Seq::<Message<J>>::empty(),
            p.spec_completed_total() == 0,
    {
        match ThreadPoolBuilder::<J>::new().max_pool_size(usize::MAX) {
            Ok(builder) => builder.build(),
            Err(_) => vstd::pervasive::unreached(),
        }
    }

    /// A cached pool: like `new_lazy`, additionally carrying an idle-reclaim
    /// window in milliseconds. The window is configuration only; no
    /// reclamation is driven by it.
    pub fn new_cached<J>(time: u64) -> (p: ThreadPool<J>)
        ensures
            p.wf(),
            p.spec_state() == State::Running(0),
            p.spec_max() == usize::MAX,
            p.spec_keep_alive() == Some(time),
            p.spec_workers().len() == 0,
            p.spec_queue() == Seq::<Message<J>>::empty(),
            p.spec_completed_total() == 0,
    {
        match ThreadPoolBuilder::<J>::new().max_pool_size(usize::MAX) {
            Ok(builder) => builder.keep_alive_time(time).build(),
            Err(_) => vstd::pervasive::unreached(),
        }
    }
}

/// The queue after a run of submissions: each job wrapped as a message and
/// appended in order.
pub open spec fn submit_all<J>(q: Seq<Message<J>>, js: Seq<J>) -> Seq<Message<J>> {
    q + js.map_values(|j: J| Message::NewJob(j))
}

/// Every submitted job is dispatched exactly once, in submission order:
/// submitting the jobs `js` on top of a queue `q` leaves exactly the
/// dispatch obligations of `q` followed by `js` itself — no job is
/// duplicated and none is dropped. Together with `execute` (which grows the
/// queue by one wrapped job) and `drain_with` (which hands out exactly the
/// queued jobs and counts each once), this is the delivery guarantee for
/// any burst of submissions.
pub proof fn lemma_submitted_jobs_dispatched_exactly_once<J>(q: Seq<Message<J>>, js: Seq<J>)
    ensures
        jobs_of(submit_all(q, js)) == jobs_of(q) + js,
    decreases js.len(),
{
    if js.len() == 0 {
        assert(submit_all(q, js) =~= q);
        assert(jobs_of(q) + js =~= jobs_of(q));
    } else {
        let head = js.drop_last();
        let j = js.last();
        lemma_submitted_jobs_dispatched_exactly_once(q, head);
        assert(submit_all(q, js) =~= submit_all(q, head).push(Message::NewJob(j)));
        crate::lemma_jobs_of_push(submit_all(q, head), Message::NewJob(j));
        assert((jobs_of(q) + head).push(j) =~= jobs_of(q) + js);
    }
}

/// The ceiling holds: a well-formed pool never carries more workers than
/// `max_pool_size`, whatever sequence of submissions and worker steps
/// produced it, since every operation preserves well-formedness.
pub proof fn lemma_worker_ceiling<J>(p: ThreadPool<J>)
    requires
        p.wf(),
    ensures
        p.spec_workers().len() <= p.spec_max(),
{
}

/// Worker identifiers are the dense range `0..len`: no two workers of a
/// well-formed pool share one, and none is ever reused.
pub proof fn lemma_worker_ids_unique<J>(p: ThreadPool<J>)
    requires
        p.wf(),
    ensures
        forall|i: int, k: int|
            0 <= i < k < p.spec_workers().len() ==> p.spec_workers()[i].id
                != p.spec_workers()[k].id,
{
    assert forall|i: int, k: int|
        0 <= i < k < p.spec_workers().len() implies p.spec_workers()[i].id
        != p.spec_workers()[k].id by {
        assert(p.spec_workers()[i].id == i);
        assert(p.spec_workers()[k].id == k);
    }
}

/// Teardown lets no worker thread outlive the pool: once the lifecycle is
/// `Terminated` and the queue has been consumed, every worker has taken its
/// termination signal and stopped. A release that waits for the queue to
/// empty therefore waits for every worker to exit.
pub proof fn lemma_teardown_complete<J>(p: ThreadPool<J>)
    requires
        p.wf(),
        p.spec_state() is Terminated,
        p.spec_queue().len() == 0,
    ensures
        forall|i: int|
            0 <= i < p.spec_workers().len() ==> (#[trigger] p.spec_workers()[i]).state is Stopped,
{
    crate::lemma_count_terminates_nonneg(p.spec_queue());
    lemma_count_stopped_all(p.spec_workers());
}

/// Reading the completed-task count is stable: its contract determines the
/// result from the pool value alone, so repeated calls with no intervening
/// submission or worker step return the same value.
pub proof fn lemma_completed_count_idempotent<J>(p: ThreadPool<J>, first: u32, second: u32)
    requires
        first as int == sum_counts(p.spec_workers()) % 0x1_0000_0000,
        second as int == sum_counts(p.spec_workers()) % 0x1_0000_0000,
    ensures
        first == second,
{
}

} // verus!
