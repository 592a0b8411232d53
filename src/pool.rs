use vstd::prelude::*;
use std::collections::VecDeque;

verus! {

/// What a pool is, abstractly: how many workers it has, every job that was
/// submitted to it in submission order, and how many of those (always a
/// prefix) have been handed to a worker.
pub ghost struct PoolView<J> {
    pub size: nat,
    pub submitted: Seq<J>,
    pub dispatched: nat,
}

impl<J> PoolView<J> {
    /// A pool has at least one worker and never hands out more jobs than
    /// it was given.
    pub open spec fn wf(self) -> bool {
        &&& self.size >= 1
        &&& self.dispatched <= self.submitted.len()
    }

    /// Jobs that were submitted and not yet handed out, oldest first.
    pub open spec fn pending(self) -> Seq<J> {
        self.submitted.skip(self.dispatched as int)
    }

    /// Jobs handed out so far, in the order they were handed out.
    pub open spec fn handed_out(self) -> Seq<J> {
        self.submitted.take(self.dispatched as int)
    }

    /// The pool once `job` joins the back of the queue.
    pub open spec fn after_submit(self, job: J) -> PoolView<J> {
        PoolView { submitted: self.submitted.push(job), ..self }
    }

    /// What a claim hands out: the oldest pending job, if any.
    pub open spec fn next_job(self) -> Option<J> {
        if self.dispatched < self.submitted.len() {
            Some(self.submitted[self.dispatched as int])
        } else {
            None
        }
    }

    /// The pool once a claim has taken the oldest pending job, if any.
    pub open spec fn after_claim(self) -> PoolView<J> {
        if self.dispatched < self.submitted.len() {
            PoolView { dispatched: self.dispatched + 1, ..self }
        } else {
            self
        }
    }
}

/// A pool of `size` workers that has not been given any job yet.
pub open spec fn fresh_pool<J>(size: nat) -> PoolView<J> {
    PoolView { size, submitted: Seq::empty(), dispatched: 0 }
}

/// The pool after `k` successive claims, by any workers.
pub open spec fn after_claims<J>(v: PoolView<J>, k: nat) -> PoolView<J>
    decreases k,
{
    if k == 0 {
        v
    } else {
        after_claims(v.after_claim(), (k - 1) as nat)
    }
}

/// What `k` successive claims, by any workers, hand out, one entry per claim.
pub open spec fn claim_results<J>(v: PoolView<J>, k: nat) -> Seq<Option<J>>
    decreases k,
{
    if k == 0 {
        Seq::empty()
    } else {
        seq![v.next_job()] + claim_results(v.after_claim(), (k - 1) as nat)
    }
}

/// The pool after submitting each of `jobs`, first to last.
pub open spec fn after_submits<J>(v: PoolView<J>, jobs: Seq<J>) -> PoolView<J>
    decreases jobs.len(),
{
    if jobs.len() == 0 {
        v
    } else {
        after_submits(v, jobs.drop_last()).after_submit(jobs.last())
    }
}

/// Each job of `jobs` as a successful claim would hand it out.
pub open spec fn some_of<J>(jobs: Seq<J>) -> Seq<Option<J>> {
    jobs.map_values(|j: J| Some(j))
}

/// The jobs handed out, followed by the jobs still pending, are exactly the
/// jobs submitted, in submission order: no job is handed out twice, none is
/// skipped, and none overtakes an earlier one.
pub proof fn lemma_queue_is_fifo<J>(v: PoolView<J>)
    requires
        v.wf(),
    ensures
        v.handed_out() + v.pending() == v.submitted,
        v.after_claim().wf(),
        v.next_job() is Some ==> v.after_claim().handed_out() == v.handed_out().push(
            v.pending()[0],
        ),
{
    assert(v.handed_out() + v.pending() =~= v.submitted);
    if v.next_job() is Some {
        assert(v.after_claim().handed_out() =~= v.handed_out().push(v.pending()[0]));
    }
}

proof fn lemma_claims<J>(v: PoolView<J>, k: nat)
    requires
        v.wf(),
        k <= v.pending().len(),
    ensures
        claim_results(v, k) == some_of(v.pending().take(k as int)),
        after_claims(v, k) == (PoolView { dispatched: v.dispatched + k, ..v }),
    decreases k,
{
    if k > 0 {
        let w = v.after_claim();
        lemma_claims(w, (k - 1) as nat);
        assert(w.pending() =~= v.pending().skip(1));
        assert(some_of(v.pending().take(k as int)) =~= seq![v.next_job()] + some_of(
            w.pending().take(k - 1),
        ));
    } else {
        assert(some_of(v.pending().take(0)) =~= Seq::empty());
    }
}

/// As many claims as there are pending jobs, by whichever workers, hand out
/// every pending job exactly once, oldest first, and leave the queue empty.
pub proof fn lemma_pending_jobs_all_handed_out<J>(v: PoolView<J>)
    requires
        v.wf(),
    ensures
        claim_results(v, v.pending().len()) == some_of(v.pending()),
        after_claims(v, v.pending().len()).pending().len() == 0,
        after_claims(v, v.pending().len()).handed_out() == v.submitted,
        after_claims(v, v.pending().len()).next_job() is None,
{
    let n = v.pending().len();
    lemma_claims(v, n);
    assert(v.pending().take(n as int) =~= v.pending());
    assert(after_claims(v, n).handed_out() =~= v.submitted);
}

proof fn lemma_submits<J>(v: PoolView<J>, jobs: Seq<J>)
    ensures
        after_submits(v, jobs) == (PoolView { submitted: v.submitted + jobs, ..v }),
    decreases jobs.len(),
{
    if jobs.len() > 0 {
        lemma_submits(v, jobs.drop_last());
        assert((v.submitted + jobs.drop_last()).push(jobs.last()) =~= v.submitted + jobs);
    } else {
        assert(v.submitted + jobs =~= v.submitted);
    }
}

/// Submitting `jobs` to a new pool of any size and then claiming as many
/// times, by whichever workers, hands out every job exactly once, in the
/// order of submission, after which nothing is left to claim.
pub proof fn lemma_every_job_runs_once_in_order<J>(size: nat, jobs: Seq<J>)
    requires
        size >= 1,
    ensures
        claim_results(after_submits(fresh_pool::<J>(size), jobs), jobs.len()) == some_of(jobs),
        after_claims(after_submits(fresh_pool::<J>(size), jobs), jobs.len()).handed_out()
            == jobs,
        after_claims(after_submits(fresh_pool::<J>(size), jobs), jobs.len()).next_job() is None,
{
    let v = after_submits(fresh_pool::<J>(size), jobs);
    lemma_submits(fresh_pool::<J>(size), jobs);
    assert(v.submitted =~= jobs);
    assert(v.pending() =~= jobs);
    lemma_pending_jobs_all_handed_out(v);
}

/// One member of the pool, known by a stable id in `0..size`.
pub struct Worker {
    pub id: usize,
}

impl Worker {
    pub fn new(id: usize) -> (w: Worker)
        ensures
            w.id == id,
    {
        Worker { id }
    }
}

/// Why a pool could not be built.
#[derive(Debug, PartialEq, Eq, Structural, Clone, Copy)]
pub enum PoolCreationError {
    /// A pool needs at least one worker.
    ZeroSize,
}

/// A fixed set of workers sharing one FIFO queue of jobs.
///
/// Jobs go in with `execute` and come out with `claim`, each exactly once
/// and in the order they went in, whichever worker claims them.
pub struct ThreadPool<J> {
    workers: Vec<Worker>,
    queue: VecDeque<J>,
    submitted: Ghost<Seq<J>>,
    dispatched: Ghost<nat>,
}

impl<J> View for ThreadPool<J> {
    type V = PoolView<J>;

    closed spec fn view(&self) -> PoolView<J> {
        PoolView { size: self.workers@.len(), submitted: self.submitted@, dispatched: self.dispatched@ }
    }
}

impl<J> ThreadPool<J> {
    /// Worker `i` has id `i`, and the queue holds exactly the pending jobs.
    pub closed spec fn wf(&self) -> bool {
        &&& self@.wf()
        &&& forall|i: int| 0 <= i < self.workers@.len() ==> (#[trigger] self.workers@[i]).id == i
        &&& self.queue@ == self@.pending()
    }

    /// A pool of `size` workers with ids `0..size` and an empty queue.
    pub fn new(size: usize) -> (pool: ThreadPool<J>)
        requires
            size > 0,
        ensures
            pool.wf(),
            pool@ == fresh_pool::<J>(size as nat),
    {
        let mut workers: Vec<Worker> = Vec::with_capacity(size);
        let mut id: usize = 0;
        while id < size
            invariant
                id <= size,
                workers@.len() == id,
                forall|i: int| 0 <= i < id ==> (#[trigger] workers@[i]).id == i,
            decreases size - id,
        {
            workers.push(Worker::new(id));
            id = id + 1;
        }
        let pool = ThreadPool {
            workers,
            queue: VecDeque::new(),
            submitted: Ghost(Seq::empty()),
            dispatched: Ghost(0),
        };
        assert(pool.queue@ =~= pool@.pending());
        pool
    }

    /// Like `new`, but reports a size of zero as an error instead of
    /// requiring it away.
    pub fn build(size: usize) -> (r: Result<ThreadPool<J>, PoolCreationError>)
        ensures
            size == 0 <==> r is Err,
            r matches Err(e) ==> e == PoolCreationError::ZeroSize,
            r matches Ok(pool) ==> pool.wf() && pool@ == fresh_pool::<J>(size as nat),
    {
        if size == 0 {
            Err(PoolCreationError::ZeroSize)
        } else {
            Ok(ThreadPool::new(size))
        }
    }

    /// Puts `job` at the back of the queue.
    pub fn execute(&mut self, job: J)
        requires
            old(self).wf(),
        ensures
            final(self).wf(),
            final(self)@ == old(self)@.after_submit(job),
    {
        self.queue.push_back(job);
        self.submitted = Ghost(self.submitted@.push(job));
        assert(self.queue@ =~= self@.pending());
    }

    /// Worker `worker` takes the oldest pending job; `None` when the queue
    /// is empty.
    pub fn claim(&mut self, worker: usize) -> (r: Option<J>)
        requires
            old(self).wf(),
            worker < old(self)@.size,
        ensures
            final(self).wf(),
            r == old(self)@.next_job(),
            final(self)@ == old(self)@.after_claim(),
    {
        let r = self.queue.pop_front();
        if r.is_some() {
            self.dispatched = Ghost(self.dispatched@ + 1);
        }
        assert(self.queue@ =~= self@.pending());
        r
    }

    /// The number of workers.
    pub fn size(&self) -> (r: usize)
        requires
            self.wf(),
        ensures
            r == self@.size,
    {
        self.workers.len()
    }

    /// The number of jobs waiting to be claimed.
    pub fn queued(&self) -> (r: usize)
        requires
            self.wf(),
        ensures
            r == self@.pending().len(),
    {
        self.queue.len()
    }

    /// The worker at position `i`, whose id is `i`.
    pub fn worker(&self, i: usize) -> (w: &Worker)
        requires
            self.wf(),
            i < self@.size,
        ensures
            w.id == i,
    {
        &self.workers[i]
    }
}

} // verus!
