//! Core of a bounded worker pool: a FIFO job channel plus the pool's
//! bookkeeping state machine.
//!
//! The channel carries jobs from submitters to workers in submission order.
//! The pool owns the channel, a fixed worker capacity chosen at construction,
//! and counters that account for every accepted job: each is either still
//! pending in the channel, executing on a worker, or completed.  A threaded
//! runtime drives this state machine under a lock: submitters call `submit`,
//! each idle worker calls `take_job` and later `job_done`, and shutdown closes
//! the channel and waits until the pool reports itself drained.
use vstd::prelude::*;

verus! {

/// Errors that pool construction and job submission can report.
#[derive(Clone, Copy, Debug, PartialEq, Eq, Structural)]
pub enum PoolError {
    /// The requested worker count was zero or negative.
    InvalidPoolSize,
    /// The pool no longer accepts work: shutdown has begun.
    PoolClosed,
}

/// What a worker gets when it asks the channel for work.
#[derive(Debug)]
pub enum Recv<T> {
    /// The next pending job, in submission order.
    Job(T),
    /// No job is pending, but more may still arrive: the caller should wait.
    Empty,
    /// The channel is closed and drained: no job will ever arrive again.
    Done,
}

/// A FIFO job channel with unbounded capacity and a one-way closed flag.
///
/// Sending never blocks; once closed, sending fails and pending jobs remain
/// available until drained.
pub struct Channel<T> {
    jobs: Vec<T>,
    closed: bool,
}

impl<T> Channel<T> {
    /// The jobs sent but not yet received, oldest first.
    pub closed spec fn pending(&self) -> Seq<T> {
        self.jobs@
    }

    /// Whether the producer side has been closed.
    pub closed spec fn is_closed(&self) -> bool {
        self.closed
    }

    /// Creates an open, empty channel.
    pub fn new() -> (c: Channel<T>)
        ensures
            c.pending() == Seq::<T>::empty(),
            !c.is_closed(),
    {
        Channel { jobs: Vec::new(), closed: false }
    }

    /// Enqueues a job at the back, or fails without effect if the channel is
    /// closed.
    pub fn send(&mut self, job: T) -> (r: Result<(), PoolError>)
        ensures
            old(self).is_closed() ==> {
                &&& r == Err::<(), PoolError>(PoolError::PoolClosed)
                &&& final(self).pending() == old(self).pending()
                &&& final(self).is_closed()
            },
            !old(self).is_closed() ==> {
                &&& r == Ok::<(), PoolError>(())
                &&& final(self).pending() == old(self).pending().push(job)
                &&& !final(self).is_closed()
            },
    {
        if self.closed {
            Err(PoolError::PoolClosed)
        } else {
            self.jobs.push(job);
            Ok(())
        }
    }

    /// Takes the oldest pending job; with nothing pending, reports whether
    /// the caller should wait (`Empty`) or give up for good (`Done`).
    pub fn try_receive(&mut self) -> (r: Recv<T>)
        ensures
            final(self).is_closed() == old(self).is_closed(),
            old(self).pending().len() > 0 ==> {
                &&& r == Recv::Job(old(self).pending()[0])
                &&& final(self).pending() == old(self).pending().drop_first()
            },
            old(self).pending().len() == 0 ==> {
                &&& final(self).pending() == old(self).pending()
                &&& !old(self).is_closed() ==> r == Recv::<T>::Empty
                &&& old(self).is_closed() ==> r == Recv::<T>::Done
            },
    {
        if self.jobs.len() > 0 {
            let job = self.jobs.remove(0);
            proof {
                assert(old(self).pending().remove(0) =~= old(self).pending().drop_first());
            }
            Recv::Job(job)
        } else if self.closed {
            Recv::Done
        } else {
            Recv::Empty
        }
    }

    /// Closes the producer side.  Idempotent; pending jobs stay available.
    pub fn close(&mut self)
        ensures
            final(self).is_closed(),
            final(self).pending() == old(self).pending(),
    {
        self.closed = true;
    }

    /// How many jobs are pending.
    pub fn pending_count(&self) -> (n: usize)
        ensures
            n == self.pending().len(),
    {
        self.jobs.len()
    }
}

/// The bookkeeping core of a worker pool with a fixed number of workers.
///
/// Every job accepted by `submit` is accounted for at all times: it is
/// pending in the channel, executing on a worker, or completed.  The runtime
/// that owns this state calls `take_job` only from a worker that holds no
/// job, which is what the `executing() < capacity()` precondition expresses;
/// in return the pool guarantees that at most `capacity()` jobs ever execute
/// at once.
pub struct Pool<T> {
    channel: Channel<T>,
    capacity: usize,
    executing: usize,
    accepted: u64,
    completed: u64,
}

impl<T> Pool<T> {
    /// The fixed worker count chosen at construction.
    pub closed spec fn capacity(&self) -> int {
        self.capacity as int
    }

    /// How many jobs are executing on workers right now.
    pub closed spec fn executing(&self) -> int {
        self.executing as int
    }

    /// How many jobs `submit` has accepted so far.
    pub closed spec fn accepted(&self) -> int {
        self.accepted as int
    }

    /// How many jobs have run to completion.
    pub closed spec fn completed(&self) -> int {
        self.completed as int
    }

    /// The jobs accepted but not yet handed to a worker, oldest first.
    pub closed spec fn pending(&self) -> Seq<T> {
        self.channel.pending()
    }

    /// Whether the pool still accepts submissions.
    pub closed spec fn is_open(&self) -> bool {
        !self.channel.is_closed()
    }

    /// Well-formedness: the worker count is positive, no more jobs execute
    /// than there are workers, and every accepted job is pending, executing,
    /// or completed.
    pub open spec fn wf(&self) -> bool {
        &&& 1 <= self.capacity()
        &&& 0 <= self.executing() <= self.capacity()
        &&& 0 <= self.completed()
        &&& self.completed() + self.pending().len() + self.executing() == self.accepted()
    }

    /// Creates a pool with `n` workers.  A zero or negative count is a
    /// construction error.
    pub fn new(n: i64) -> (r: Result<Pool<T>, PoolError>)
        requires
            n <= usize::MAX,
        ensures
            n <= 0 ==> r == Err::<Pool<T>, PoolError>(PoolError::InvalidPoolSize),
            n > 0 ==> {
                &&& r matches Ok(p)
                &&& p.wf()
                &&& p.capacity() == n
                &&& p.is_open()
                &&& p.pending() == Seq::<T>::empty()
                &&& p.executing() == 0
                &&& p.accepted() == 0
                &&& p.completed() == 0
            },
    {
        if n <= 0 {
            Err(PoolError::InvalidPoolSize)
        } else {
            Ok(Pool {
                channel: Channel::new(),
                capacity: n as usize,
                executing: 0,
                accepted: 0,
                completed: 0,
            })
        }
    }

    /// Accepts a job while the pool is open; after shutdown has begun it
    /// fails with `PoolClosed` and the job is discarded unexecuted.
    pub fn submit(&mut self, job: T) -> (r: Result<(), PoolError>)
        requires
            old(self).wf(),
            old(self).accepted() < u64::MAX,
        ensures
            final(self).wf(),
            final(self).capacity() == old(self).capacity(),
            final(self).executing() == old(self).executing(),
            final(self).completed() == old(self).completed(),
            final(self).is_open() == old(self).is_open(),
            !old(self).is_open() ==> {
                &&& r == Err::<(), PoolError>(PoolError::PoolClosed)
                &&& final(self).pending() == old(self).pending()
                &&& final(self).accepted() == old(self).accepted()
            },
            old(self).is_open() ==> {
                &&& r == Ok::<(), PoolError>(())
                &&& final(self).pending() == old(self).pending().push(job)
                &&& final(self).accepted() == old(self).accepted() + 1
            },
    {
        match self.channel.send(job) {
            Ok(()) => {
                self.accepted = self.accepted + 1;
                Ok(())
            },
            Err(e) => Err(e),
        }
    }

    /// Hands the oldest pending job to an idle worker, which then counts as
    /// executing it; with nothing pending, tells the worker to wait (`Empty`)
    /// or to exit for good (`Done`).
    ///
    /// The caller must be a worker that holds no job, so fewer than
    /// `capacity()` jobs are executing when it asks.
    pub fn take_job(&mut self) -> (r: Recv<T>)
        requires
            old(self).wf(),
            old(self).executing() < old(self).capacity(),
        ensures
            final(self).wf(),
            final(self).capacity() == old(self).capacity(),
            final(self).accepted() == old(self).accepted(),
            final(self).completed() == old(self).completed(),
            final(self).is_open() == old(self).is_open(),
            old(self).pending().len() > 0 ==> {
                &&& r == Recv::Job(old(self).pending()[0])
                &&& final(self).pending() == old(self).pending().drop_first()
                &&& final(self).executing() == old(self).executing() + 1
            },
            old(self).pending().len() == 0 ==> {
                &&& final(self).pending() == old(self).pending()
                &&& final(self).executing() == old(self).executing()
                &&& !old(self).is_open() ==> r == Recv::<T>::Done
                &&& old(self).is_open() ==> r == Recv::<T>::Empty
            },
    {
        match self.channel.try_receive() {
            Recv::Job(job) => {
                self.executing = self.executing + 1;
                Recv::Job(job)
            },
            Recv::Empty => Recv::Empty,
            Recv::Done => Recv::Done,
        }
    }

    /// Records that a worker finished the job it was executing, whether the
    /// job succeeded or failed internally: a failure is isolated inside the
    /// worker and leaves the pool's capacity intact.
    pub fn job_done(&mut self)
        requires
            old(self).wf(),
            old(self).executing() > 0,
        ensures
            final(self).wf(),
            final(self).capacity() == old(self).capacity(),
            final(self).accepted() == old(self).accepted(),
            final(self).pending() == old(self).pending(),
            final(self).is_open() == old(self).is_open(),
            final(self).executing() == old(self).executing() - 1,
            final(self).completed() == old(self).completed() + 1,
    {
        self.executing = self.executing - 1;
        self.completed = self.completed + 1;
    }

    /// Begins shutdown: no further submission is accepted.  Idempotent, and
    /// already-pending jobs stay available until drained.
    pub fn begin_shutdown(&mut self)
        requires
            old(self).wf(),
        ensures
            final(self).wf(),
            !final(self).is_open(),
            final(self).capacity() == old(self).capacity(),
            final(self).executing() == old(self).executing(),
            final(self).accepted() == old(self).accepted(),
            final(self).completed() == old(self).completed(),
            final(self).pending() == old(self).pending(),
    {
        self.channel.close();
    }

    /// Whether no job is pending and no job is executing: once the pool is
    /// also closed, shutdown may return.
    pub fn is_drained(&self) -> (r: bool)
        ensures
            r == (self.pending().len() == 0 && self.executing() == 0),
    {
        self.channel.pending_count() == 0 && self.executing == 0
    }

    /// The fixed worker count.
    pub fn worker_count(&self) -> (n: usize)
        ensures
            n == self.capacity(),
    {
        self.capacity
    }

    /// How many jobs are executing right now.
    pub fn executing_count(&self) -> (n: usize)
        ensures
            n == self.executing(),
    {
        self.executing
    }

    /// How many jobs `submit` has accepted so far.
    pub fn accepted_count(&self) -> (n: u64)
        ensures
            n == self.accepted(),
    {
        self.accepted
    }

    /// How many jobs have run to completion.
    pub fn completed_count(&self) -> (n: u64)
        ensures
            n == self.completed(),
    {
        self.completed
    }

    /// Whether the pool still accepts submissions.
    pub fn is_accepting(&self) -> (b: bool)
        ensures
            b == self.is_open(),
    {
        !self.channel.closed
    }
}

/// Law: for any number of workers and any number of accepted jobs, once the
/// pool is drained — no job pending and no job executing — every accepted
/// job has completed, each counted exactly once.  Shutdown waits for exactly
/// this state, so it does not return before all accepted jobs have run.
pub proof fn lemma_drained_pool_completed_every_job<T>(p: Pool<T>)
    requires
        p.wf(),
        p.pending().len() == 0,
        p.executing() == 0,
    ensures
        p.completed() == p.accepted(),
{
}

/// Law: a well-formed pool never has more jobs executing at once than its
/// fixed worker count.
pub proof fn lemma_executing_never_exceeds_capacity<T>(p: Pool<T>)
    requires
        p.wf(),
    ensures
        p.executing() <= p.capacity(),
{
}

} // verus!
