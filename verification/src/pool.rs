//! The worker pool: a queue of probe tasks and a fixed number of workers
//! that take them one at a time.
//!
//! The pool decides which port is probed next and how many probes run at
//! once. The probes themselves are network work and run outside the library:
//! whoever drives the pool starts the probe of each port that `take` hands
//! out, and reports it with `complete` when it has ended.

use crate::ports::PortSet;
use vstd::prelude::*;

verus! {

/// A fixed number of workers and the tasks submitted to them.
pub struct WorkerPool {
    workers: usize,
    queue: Vec<u16>,
    started: usize,
    active: Vec<u16>,
}

impl WorkerPool {
    /// The pool's invariant: it has a worker, no more probes are in flight
    /// than it has workers, and every probe in flight was taken from the
    /// queue.
    pub closed spec fn wf(&self) -> bool {
        &&& self.workers > 0
        &&& self.started <= self.queue.len()
        &&& self.active.len() <= self.workers
        &&& self.active.len() <= self.started
    }

    /// The number of workers.
    pub closed spec fn max_count(&self) -> int {
        self.workers as int
    }

    /// Every task submitted so far, in the order of submission.
    pub closed spec fn tasks(&self) -> Seq<u16> {
        self.queue@
    }

    /// How many of the tasks a worker has taken so far.
    pub closed spec fn started(&self) -> int {
        self.started as int
    }

    /// The ports whose probes are in flight, in the order they were taken.
    pub closed spec fn in_flight(&self) -> Seq<u16> {
        self.active@
    }

    /// The tasks that wait for a worker.
    pub open spec fn queued(&self) -> Seq<u16> {
        self.tasks().subrange(self.started(), self.tasks().len() as int)
    }

    /// Whether a worker is free and a task waits for it.
    pub open spec fn can_take(&self) -> bool {
        self.in_flight().len() < self.max_count() && self.started() < self.tasks().len()
    }

    /// Whether no task waits and no probe is in flight.
    pub open spec fn idle(&self) -> bool {
        self.started() == self.tasks().len() && self.in_flight().len() == 0
    }

    /// A pool of `workers` workers with no task.
    pub fn new(workers: usize) -> (pool: WorkerPool)
        requires
            workers > 0,
        ensures
            pool.wf(),
            pool.max_count() == workers,
            pool.tasks() == Seq::<u16>::empty(),
            pool.started() == 0,
            pool.in_flight() == Seq::<u16>::empty(),
    {
        WorkerPool { workers, queue: Vec::new(), started: 0, active: Vec::new() }
    }

    /// Lets a free worker take the next task of the queue. Gives the port to
    /// probe, or `None` where every worker is busy or no task waits.
    pub fn take(&mut self) -> (port: Option<u16>)
        requires
            old(self).wf(),
        ensures
            final(self).wf(),
            final(self).max_count() == old(self).max_count(),
            final(self).tasks() == old(self).tasks(),
            port is Some <==> old(self).can_take(),
            port matches Some(p) ==> {
                &&& p == old(self).tasks()[old(self).started()]
                &&& final(self).started() == old(self).started() + 1
                &&& final(self).in_flight() == old(self).in_flight().push(p)
            },
            port is None ==> *final(self) == *old(self),
    {
        if self.active.len() < self.workers && self.started < self.queue.len() {
            let port = self.queue[self.started];
            self.started = self.started + 1;
            self.active.push(port);
            Some(port)
        } else {
            None
        }
    }

    /// Records that the probe of `port` has ended and frees its worker.
    /// Gives `false`, and changes nothing, where no probe of that port is in
    /// flight.
    pub fn complete(&mut self, port: u16) -> (was_active: bool)
        requires
            old(self).wf(),
        ensures
            final(self).wf(),
            final(self).max_count() == old(self).max_count(),
            final(self).tasks() == old(self).tasks(),
            final(self).started() == old(self).started(),
            was_active == old(self).in_flight().contains(port),
            was_active ==> final(self).in_flight() == old(self).in_flight().remove(
                first_place(old(self).in_flight(), port),
            ),
            !was_active ==> *final(self) == *old(self),
    {
        let mut i: usize = 0;
        while i < self.active.len()
            invariant
                old(self).wf(),
                i <= self.active.len(),
                *self == *old(self),
                forall|j: int| 0 <= j < i ==> self.active@[j] != port,
            decreases self.active.len() - i,
        {
            if self.active[i] == port {
                proof {
                    lemma_first_place(self.active@, port, i as int);
                }
                self.active.remove(i);
                return true;
            }
            i = i + 1;
        }
        false
    }

    /// The number of workers.
    pub fn max_workers(&self) -> (n: usize)
        ensures
            n == self.max_count(),
    {
        self.workers
    }

    /// The number of probes in flight.
    pub fn active_count(&self) -> (n: usize)
        ensures
            n == self.in_flight().len(),
    {
        self.active.len()
    }

    /// The number of tasks that wait for a worker.
    pub fn queued_count(&self) -> (n: usize)
        requires
            self.wf(),
        ensures
            n == self.queued().len(),
    {
        self.queue.len() - self.started
    }

    /// Whether all submitted work has ended, so that a caller who waits for
    /// the pool may go on.
    pub fn is_idle(&self) -> (idle: bool)
        ensures
            idle == self.idle(),
    {
        self.started == self.queue.len() && self.active.len() == 0
    }
}

/// The first place of `s` that holds `value`, where it holds it at all.
pub open spec fn first_place(s: Seq<u16>, value: u16) -> int {
    choose|at: int| is_first_place(s, value, at)
}

/// Whether `at` is the first place of `s` that holds `value`.
pub open spec fn is_first_place(s: Seq<u16>, value: u16, at: int) -> bool {
    &&& 0 <= at < s.len()
    &&& s[at] == value
    &&& forall|j: int| 0 <= j < at ==> s[j] != value
}

/// A value has one first place.
pub proof fn lemma_first_place(s: Seq<u16>, value: u16, at: int)
    requires
        is_first_place(s, value, at),
    ensures
        first_place(s, value) == at,
        s.contains(value),
{
    let found = first_place(s, value);
    assert(is_first_place(s, value, found));
    if found < at {
        assert(s[found] != value);
    }
    if at < found {
        assert(s[at] != value);
    }
}

/// What a probe hands on to the collector: the port where the connection
/// was made, and nothing where it was not, for whatever reason.
pub fn port_checker(port: u16, connected: bool) -> (found: Option<u16>)
    ensures
        found == if connected {
            Some(port)
        } else {
            None::<u16>
        },
{
    if connected {
        Some(port)
    } else {
        None
    }
}

/// Submits the probe of one port to the pool, behind the tasks that are
/// already there.
pub fn launch_thread(pool: &mut WorkerPool, port: u16)
    requires
        old(pool).wf(),
    ensures
        final(pool).wf(),
        final(pool).max_count() == old(pool).max_count(),
        final(pool).tasks() == old(pool).tasks().push(port),
        final(pool).started() == old(pool).started(),
        final(pool).in_flight() == old(pool).in_flight(),
{
    pool.queue.push(port);
}

/// Submits one probe for each port of the range, in ascending order.
pub fn start_scan_thread(ports: &PortSet, pool: &mut WorkerPool)
    requires
        ports.wf(),
        old(pool).wf(),
    ensures
        final(pool).wf(),
        final(pool).max_count() == old(pool).max_count(),
        final(pool).tasks() == old(pool).tasks() + ports@,
        final(pool).started() == old(pool).started(),
        final(pool).in_flight() == old(pool).in_flight(),
{
    let count = ports.len();
    let mut i: usize = 0;
    while i < count
        invariant
            ports.wf(),
            count == ports.count(),
            i <= count,
            pool.wf(),
            pool.max_count() == old(pool).max_count(),
            pool.tasks() == old(pool).tasks() + ports@.subrange(0, i as int),
            pool.started() == old(pool).started(),
            pool.in_flight() == old(pool).in_flight(),
        decreases count - i,
    {
        launch_thread(pool, ports.port_at(i));
        assert(ports@.subrange(0, i + 1) == ports@.subrange(0, i as int).push(ports@[i as int]));
        i = i + 1;
    }
    assert(ports@.subrange(0, count as int) == ports@);
}

} // verus!
