//! The worker-pool dispatch engine.
//!
//! The pool is modelled as an explicit protocol state: submitted jobs are
//! numbered, a FIFO queue carries them from the submitter to the workers,
//! each worker holds at most one claimed job, and finished jobs are logged
//! with the worker that ran them. The embedding program drives one real
//! thread per worker through exactly these transitions; the contracts here
//! pin down what each transition may do, and the well-formedness invariant
//! shows that no job is ever lost or run twice.

use vstd::prelude::*;
use vstd::string::*;

verus! {

/// Errors of the pool.
#[derive(Debug, Clone, Copy, PartialEq, Eq, Structural)]
pub enum Error {
    /// A pool of size zero was requested.
    EmptyPool,
    /// A submission arrived after shutdown began, so the sending half of
    /// the queue is gone.
    ChannelClosed,
}

impl Error {
    /// The error as text.
    pub fn message(&self) -> (m: String)
        ensures
            *self == Error::EmptyPool ==> m@ == "cannot create a zero sized thread pool"@,
            *self == Error::ChannelClosed ==> m@ == "channel closed"@,
    {
        match self {
            Error::EmptyPool => String::from_str("cannot create a zero sized thread pool"),
            Error::ChannelClosed => String::from_str("channel closed"),
        }
    }
}

/// One worker of the pool: its id and what it is currently doing.
#[derive(Debug, Clone, Copy)]
pub struct Worker {
    /// The worker's place in the pool.
    pub id: usize,
    /// The job the worker has claimed and not yet finished.
    pub running: Option<u64>,
    /// False once the worker has seen the closed, drained queue and stopped.
    pub alive: bool,
}

impl Worker {
    /// A fresh, idle worker with the given id.
    pub fn new(id: usize) -> (w: Worker)
        ensures
            w.id == id,
            w.running is None,
            w.alive,
    {
        Worker { id, running: None, alive: true }
    }
}

/// What one attempt to take a job from the queue can come to.
#[derive(Debug, Clone, Copy, PartialEq, Eq)]
pub enum Received {
    /// A job was claimed.
    Job(u64),
    /// The queue is empty but still open: a real worker would block here.
    WouldBlock,
    /// The queue is closed and drained: the worker stops.
    Disconnected,
}

/// The worker pool: a queue of submitted jobs, a fixed set of workers, and
/// a log of finished jobs.
#[derive(Debug)]
pub struct ThreadPool {
    /// The workers, in creation order; the index is the worker id.
    pub workers: Vec<Worker>,
    /// Jobs submitted and not yet claimed, oldest first.
    pub pending: Vec<u64>,
    /// Whether the sending half of the queue is still present; shutdown
    /// drops it, and submissions fail from then on.
    pub sender_open: bool,
    /// The number the next submitted job will get.
    pub next_id: u64,
    /// Finished jobs with the worker that ran each, in completion order.
    pub done: Vec<(u64, usize)>,
}

impl ThreadPool {
    /// The job is waiting in the queue.
    pub open spec fn in_pending(self, id: u64) -> bool {
        exists|i: int| 0 <= i < self.pending@.len() && self.pending@[i] == id
    }

    /// Some worker has claimed the job and not yet finished it.
    pub open spec fn in_running(self, id: u64) -> bool {
        exists|w: int|
            0 <= w < self.workers@.len() && self.workers@[w].running == Some(id)
    }

    /// The job has been run to completion.
    pub open spec fn in_done(self, id: u64) -> bool {
        exists|i: int| 0 <= i < self.done@.len() && self.done@[i].0 == id
    }

    /// Every submitted job sits in exactly one place: the queue, one
    /// worker's hands, or the completion log; nothing else is anywhere.
    pub open spec fn wf(self) -> bool {
        // Worker ids are their indices, and a stopped worker holds no job
        // and can only have stopped after shutdown began.
        &&& forall|w: int|
            0 <= w < self.workers@.len() ==> (#[trigger] self.workers@[w]).id == w
        &&& forall|w: int|
            0 <= w < self.workers@.len() && !(#[trigger] self.workers@[w]).alive
                ==> self.workers@[w].running is None && !self.sender_open
        // Every queued, claimed or finished job was submitted.
        &&& forall|i: int|
            0 <= i < self.pending@.len() ==> (#[trigger] self.pending@[i]) < self.next_id
        &&& forall|w: int|
            0 <= w < self.workers@.len() && (#[trigger] self.workers@[w]).running is Some
                ==> self.workers@[w].running->0 < self.next_id
        &&& forall|k: int|
            0 <= k < self.done@.len() ==> (#[trigger] self.done@[k]).0 < self.next_id
                && self.done@[k].1 < self.workers@.len()
        // No job occurs twice within any one place.
        &&& forall|i: int, j: int|
            0 <= i < j < self.pending@.len() ==> self.pending@[i] != self.pending@[j]
        &&& forall|v: int, w: int|
            0 <= v < w < self.workers@.len() && self.workers@[v].running is Some
                && self.workers@[w].running is Some
                ==> self.workers@[v].running->0 != self.workers@[w].running->0
        &&& forall|k: int, l: int|
            0 <= k < l < self.done@.len() ==> self.done@[k].0 != self.done@[l].0
        // No job occurs in two different places.
        &&& forall|i: int, w: int|
            0 <= i < self.pending@.len() && 0 <= w < self.workers@.len()
                && (#[trigger] self.workers@[w]).running is Some
                ==> (#[trigger] self.pending@[i]) != self.workers@[w].running->0
        &&& forall|i: int, k: int|
            0 <= i < self.pending@.len() && 0 <= k < self.done@.len()
                ==> (#[trigger] self.pending@[i]) != (#[trigger] self.done@[k]).0
        &&& forall|w: int, k: int|
            0 <= w < self.workers@.len() && 0 <= k < self.done@.len()
                && (#[trigger] self.workers@[w]).running is Some
                ==> self.workers@[w].running->0 != (#[trigger] self.done@[k]).0
        // A worker stops only once the queue is drained, and nothing is
        // queued again after that.
        &&& forall|w: int|
            0 <= w < self.workers@.len() && !(#[trigger] self.workers@[w]).alive
                ==> self.pending@.len() == 0
        // Every submitted job is in some place.
        &&& forall|id: u64|
            id < self.next_id ==> self.in_pending(id) || self.in_running(id)
                || #[trigger] self.in_done(id)
    }

    /// A queue index is a witness that its job is in the queue.
    proof fn lemma_in_pending_at(self, i: int)
        requires
            0 <= i < self.pending@.len(),
        ensures
            self.in_pending(self.pending@[i]),
    {
        assert(0 <= i < self.pending@.len() && self.pending@[i] == self.pending@[i]);
    }

    /// A worker holding a job is a witness that the job is claimed.
    proof fn lemma_in_running_at(self, w: int)
        requires
            0 <= w < self.workers@.len(),
            self.workers@[w].running is Some,
        ensures
            self.in_running(self.workers@[w].running->0),
    {
        assert(self.workers@[w].running == Some(self.workers@[w].running->0));
    }

    /// A log index is a witness that its job is finished.
    proof fn lemma_in_done_at(self, k: int)
        requires
            0 <= k < self.done@.len(),
        ensures
            self.in_done(self.done@[k].0),
    {
        assert(0 <= k < self.done@.len() && self.done@[k].0 == self.done@[k].0);
    }

    /// Creates a pool with `size` workers, or fails with `EmptyPool` when
    /// `size` is zero.
    pub fn build(size: usize) -> (r: Result<ThreadPool, Error>)
        ensures
            size == 0 ==> r == Err::<ThreadPool, Error>(Error::EmptyPool),
            size > 0 ==> (r matches Ok(p) && p.wf() && p.workers@.len() == size
                && p.sender_open && p.pending@.len() == 0 && p.done@.len() == 0
                && p.next_id == 0 && forall|w: int|
                0 <= w < size ==> (#[trigger] p.workers@[w]).alive
                    && p.workers@[w].running is None),
    {
        if size == 0 {
            return Err(Error::EmptyPool);
        }
        let mut workers: Vec<Worker> = Vec::new();
        let mut id: usize = 0;
        while id < size
            invariant
                id <= size,
                workers@.len() == id,
                forall|w: int|
                    0 <= w < id ==> (#[trigger] workers@[w]).id == w
                        && workers@[w].running is None && workers@[w].alive,
            decreases size - id,
        {
            workers.push(Worker::new(id));
            id = id + 1;
        }
        Ok(
            ThreadPool {
                workers,
                pending: Vec::new(),
                sender_open: true,
                next_id: 0,
                done: Vec::new(),
            },
        )
    }

    /// Submits a job: while the sending half is present the job joins the
    /// queue and its number is returned; after shutdown has begun the
    /// submission fails with `ChannelClosed` and nothing changes.
    pub fn execute(&mut self) -> (r: Result<u64, Error>)
        requires
            old(self).wf(),
            old(self).next_id < u64::MAX,
        ensures
            final(self).wf(),
            !old(self).sender_open ==> r == Err::<u64, Error>(Error::ChannelClosed)
                && *final(self) == *old(self),
            old(self).sender_open ==> (r == Ok::<u64, Error>(old(self).next_id)
                && final(self).pending@ == old(self).pending@.push(old(self).next_id)
                && final(self).next_id == old(self).next_id + 1
                && final(self).workers@ == old(self).workers@
                && final(self).done@ == old(self).done@
                && final(self).sender_open),
    {
        if !self.sender_open {
            return Err(Error::ChannelClosed);
        }
        let id = self.next_id;
        self.pending.push(id);
        self.next_id = id + 1;
        proof {
            assert forall|j: u64| j < self.next_id implies self.in_pending(j)
                || self.in_running(j) || #[trigger] self.in_done(j) by {
                if j == id {
                    self.lemma_in_pending_at(self.pending@.len() - 1);
                } else {
                    assert(old(self).in_pending(j) || old(self).in_running(j)
                        || old(self).in_done(j));
                    if old(self).in_pending(j) {
                        let i = choose|i: int|
                            0 <= i < old(self).pending@.len() && old(self).pending@[i] == j;
                        self.lemma_in_pending_at(i);
                    } else if old(self).in_running(j) {
                        let w = choose|w: int|
                            0 <= w < old(self).workers@.len()
                                && old(self).workers@[w].running == Some(j);
                        self.lemma_in_running_at(w);
                    } else {
                        let k = choose|k: int|
                            0 <= k < old(self).done@.len() && old(self).done@[k].0 == j;
                        self.lemma_in_done_at(k);
                    }
                }
            }
        }
        Ok(id)
    }

    /// One attempt by worker `worker` to take a job, mirroring a blocking
    /// receive on the shared queue: the oldest queued job is claimed; an
    /// empty, still-open queue would block; an empty, closed queue stops
    /// the worker for good.
    pub fn recv(&mut self, worker: usize) -> (r: Received)
        requires
            old(self).wf(),
            worker < old(self).workers@.len(),
            old(self).workers@[worker as int].alive,
            old(self).workers@[worker as int].running is None,
        ensures
            final(self).wf(),
            final(self).next_id == old(self).next_id,
            final(self).sender_open == old(self).sender_open,
            final(self).done@ == old(self).done@,
            final(self).workers@.len() == old(self).workers@.len(),
            old(self).pending@.len() > 0 ==> (r == Received::Job(old(self).pending@[0])
                && final(self).pending@ == old(self).pending@.drop_first()
                && final(self).workers@ == old(self).workers@.update(
                worker as int,
                Worker {
                    running: Some(old(self).pending@[0]),
                    ..old(self).workers@[worker as int]
                },
            )),
            old(self).pending@.len() == 0 && old(self).sender_open ==> (r
                == Received::WouldBlock && *final(self) == *old(self)),
            old(self).pending@.len() == 0 && !old(self).sender_open ==> (r
                == Received::Disconnected && final(self).pending@ == old(self).pending@
                && final(self).workers@ == old(self).workers@.update(
                worker as int,
                Worker { alive: false, ..old(self).workers@[worker as int] },
            )),
    {
        if self.pending.len() == 0 {
            if self.sender_open {
                return Received::WouldBlock;
            }
            let mut wk = self.workers[worker];
            wk.alive = false;
            self.workers[worker] = wk;
            proof {
                assert forall|j: u64| j < self.next_id implies self.in_pending(j)
                    || self.in_running(j) || #[trigger] self.in_done(j) by {
                    assert(old(self).in_pending(j) || old(self).in_running(j)
                        || old(self).in_done(j));
                    if old(self).in_running(j) {
                        let v = choose|v: int|
                            0 <= v < old(self).workers@.len()
                                && old(self).workers@[v].running == Some(j);
                        self.lemma_in_running_at(v);
                    } else {
                        let k = choose|k: int|
                            0 <= k < old(self).done@.len() && old(self).done@[k].0 == j;
                        self.lemma_in_done_at(k);
                    }
                }
            }
            return Received::Disconnected;
        }
        let id = self.pending.remove(0);
        let mut wk = self.workers[worker];
        wk.running = Some(id);
        self.workers[worker] = wk;
        proof {
            assert forall|j: u64| j < self.next_id implies self.in_pending(j)
                || self.in_running(j) || #[trigger] self.in_done(j) by {
                assert(old(self).in_pending(j) || old(self).in_running(j)
                    || old(self).in_done(j));
                if old(self).in_pending(j) {
                    let i = choose|i: int|
                        0 <= i < old(self).pending@.len() && old(self).pending@[i] == j;
                    if i == 0 {
                        self.lemma_in_running_at(worker as int);
                    } else {
                        assert(self.pending@[i - 1] == j);
                        self.lemma_in_pending_at(i - 1);
                    }
                } else if old(self).in_running(j) {
                    let w = choose|w: int|
                        0 <= w < old(self).workers@.len() && old(self).workers@[w].running
                            == Some(j);
                    self.lemma_in_running_at(w);
                } else {
                    let k = choose|k: int|
                        0 <= k < old(self).done@.len() && old(self).done@[k].0 == j;
                    self.lemma_in_done_at(k);
                }
            }
        }
        Received::Job(id)
    }

    /// Worker `worker` finishes its claimed job: the job moves from the
    /// worker's hands to the completion log.
    pub fn complete(&mut self, worker: usize)
        requires
            old(self).wf(),
            worker < old(self).workers@.len(),
            old(self).workers@[worker as int].running is Some,
        ensures
            final(self).wf(),
            final(self).next_id == old(self).next_id,
            final(self).sender_open == old(self).sender_open,
            final(self).pending@ == old(self).pending@,
            final(self).done@ == old(self).done@.push(
                (old(self).workers@[worker as int].running->0, worker),
            ),
            final(self).workers@ == old(self).workers@.update(
                worker as int,
                Worker { running: None, ..old(self).workers@[worker as int] },
            ),
    {
        let mut wk = self.workers[worker];
        let id = match wk.running {
            Some(id) => id,
            None => 0,
        };
        wk.running = None;
        self.workers[worker] = wk;
        self.done.push((id, worker));
        proof {
            assert forall|j: u64| j < self.next_id implies self.in_pending(j)
                || self.in_running(j) || #[trigger] self.in_done(j) by {
                assert(old(self).in_pending(j) || old(self).in_running(j)
                    || old(self).in_done(j));
                if old(self).in_pending(j) {
                    let i = choose|i: int|
                        0 <= i < old(self).pending@.len() && old(self).pending@[i] == j;
                    self.lemma_in_pending_at(i);
                } else if old(self).in_running(j) {
                    let w = choose|w: int|
                        0 <= w < old(self).workers@.len() && old(self).workers@[w].running
                            == Some(j);
                    if w == worker as int {
                        self.lemma_in_done_at(self.done@.len() - 1);
                    } else {
                        self.lemma_in_running_at(w);
                    }
                } else {
                    let k = choose|k: int|
                        0 <= k < old(self).done@.len() && old(self).done@[k].0 == j;
                    self.lemma_in_done_at(k);
                }
            }
        }
    }

    /// Drops the sending half of the queue: no submission succeeds from
    /// here on, and idle workers that look at the empty queue stop.
    pub fn close(&mut self)
        requires
            old(self).wf(),
        ensures
            final(self).wf(),
            !final(self).sender_open,
            final(self).workers@ == old(self).workers@,
            final(self).pending@ == old(self).pending@,
            final(self).done@ == old(self).done@,
            final(self).next_id == old(self).next_id,
    {
        self.sender_open = false;
        proof {
            assert forall|j: u64| j < self.next_id implies self.in_pending(j)
                || self.in_running(j) || #[trigger] self.in_done(j) by {
                assert(old(self).in_pending(j) || old(self).in_running(j)
                    || old(self).in_done(j));
                if old(self).in_pending(j) {
                    let i = choose|i: int|
                        0 <= i < old(self).pending@.len() && old(self).pending@[i] == j;
                    self.lemma_in_pending_at(i);
                } else if old(self).in_running(j) {
                    let w = choose|w: int|
                        0 <= w < old(self).workers@.len() && old(self).workers@[w].running
                            == Some(j);
                    self.lemma_in_running_at(w);
                } else {
                    let k = choose|k: int|
                        0 <= k < old(self).done@.len() && old(self).done@[k].0 == j;
                    self.lemma_in_done_at(k);
                }
            }
        }
    }

    /// The orderly shutdown protocol: drop the sending half, then let each
    /// worker in creation order finish its claimed job, drain the queue
    /// and stop. It always terminates, every submitted job ends up in the
    /// completion log, and no worker is left running.
    pub fn shutdown(&mut self)
        requires
            old(self).wf(),
            old(self).workers@.len() > 0,
        ensures
            final(self).wf(),
            !final(self).sender_open,
            final(self).next_id == old(self).next_id,
            final(self).pending@.len() == 0,
            final(self).workers@.len() == old(self).workers@.len(),
            forall|w: int|
                0 <= w < final(self).workers@.len()
                    ==> !(#[trigger] final(self).workers@[w]).alive,
            forall|id: u64| id < old(self).next_id ==> final(self).in_done(id),
    {
        self.close();
        let size = self.workers.len();
        let mut w: usize = 0;
        while w < size
            invariant
                self.wf(),
                !self.sender_open,
                w <= size,
                self.workers@.len() == size,
                self.next_id == old(self).next_id,
                forall|v: int|
                    0 <= v < w ==> !(#[trigger] self.workers@[v]).alive,
            decreases size - w,
        {
            while self.workers[w].alive
                invariant
                    self.wf(),
                    !self.sender_open,
                    w < size,
                    self.workers@.len() == size,
                    self.next_id == old(self).next_id,
                    forall|v: int|
                        0 <= v < w ==> !(#[trigger] self.workers@[v]).alive,
                decreases
                    self.pending@.len(),
                    (if self.workers@[w as int].running is Some {
                        1int
                    } else {
                        0int
                    }),
                    (if self.workers@[w as int].alive {
                        1int
                    } else {
                        0int
                    }),
            {
                match self.workers[w].running {
                    Some(_) => {
                        self.complete(w);
                    },
                    None => {
                        let r = self.recv(w);
                        proof {
                            assert(!(r is WouldBlock));
                        }
                    },
                }
            }
            w = w + 1;
        }
        proof {
            assert(!self.workers@[0].alive);
            assert(self.pending@.len() == 0);
            assert forall|id: u64| id < old(self).next_id implies self.in_done(id) by {
                assert(self.in_pending(id) || self.in_running(id) || self.in_done(id));
                if self.in_running(id) {
                    let v = choose|v: int|
                        0 <= v < self.workers@.len() && self.workers@[v].running == Some(id);
                    assert(!self.workers@[v].alive);
                }
            }
        }
    }
}

/// Each submitted job sits in exactly one place of a well-formed pool:
/// still queued, claimed by exactly one worker, or finished by exactly one
/// worker. In particular no job is lost and none is delivered twice.
pub proof fn lemma_job_delivered_exactly_once(p: ThreadPool, id: u64)
    requires
        p.wf(),
        id < p.next_id,
    ensures
        p.in_pending(id) || p.in_running(id) || p.in_done(id),
        !(p.in_pending(id) && p.in_running(id)),
        !(p.in_pending(id) && p.in_done(id)),
        !(p.in_running(id) && p.in_done(id)),
        forall|i: int, j: int|
            0 <= i < p.pending@.len() && 0 <= j < p.pending@.len() && p.pending@[i] == id
                && p.pending@[j] == id ==> i == j,
        forall|v: int, w: int|
            0 <= v < p.workers@.len() && 0 <= w < p.workers@.len()
                && p.workers@[v].running == Some(id) && p.workers@[w].running == Some(id)
                ==> v == w,
        forall|k: int, l: int|
            0 <= k < p.done@.len() && 0 <= l < p.done@.len() && p.done@[k].0 == id
                && p.done@[l].0 == id ==> k == l,
{
    assert(p.in_pending(id) || p.in_running(id) || p.in_done(id));
    if p.in_pending(id) && p.in_running(id) {
        let i = choose|i: int| 0 <= i < p.pending@.len() && p.pending@[i] == id;
        let w = choose|w: int|
            0 <= w < p.workers@.len() && p.workers@[w].running == Some(id);
        assert(p.pending@[i] != p.workers@[w].running->0);
    }
    if p.in_pending(id) && p.in_done(id) {
        let i = choose|i: int| 0 <= i < p.pending@.len() && p.pending@[i] == id;
        let k = choose|k: int| 0 <= k < p.done@.len() && p.done@[k].0 == id;
        assert(p.pending@[i] != p.done@[k].0);
    }
    if p.in_running(id) && p.in_done(id) {
        let w = choose|w: int|
            0 <= w < p.workers@.len() && p.workers@[w].running == Some(id);
        let k = choose|k: int| 0 <= k < p.done@.len() && p.done@[k].0 == id;
        assert(p.workers@[w].running->0 != p.done@[k].0);
    }
}

} // verus!
