//! The orchestrator of one scan run.
//!
//! A `Scan` owns the range of ports, the worker pool and the collector. It
//! decides; it does not touch the network. Whoever drives it asks
//! `next_action` what to do, starts the probe it is told to start, and hands
//! each probe's outcome back with `on_result`. When nothing is left to do,
//! `finish` gives the report.
//!
//! A run passes through its phases once and in order. The settings are
//! validated into `Options`, the host is resolved into a `ScanTarget`, the
//! `Scan` made from them probes until `is_done`, and `finish` consumes it
//! into the `ScanReport`.

use crate::collector::{entries_of, notice_text, ResultCollector};
use crate::options::{Options, ScanTarget};
use crate::pool::{
    first_place, is_first_place, lemma_first_place, port_checker, start_scan_thread, WorkerPool,
};
use crate::ports::PortSet;
use crate::report::ScanReport;
use crate::services::ServiceTable;
use vstd::prelude::*;

verus! {

/// What the driver of a scan has to do next.
#[derive(Clone, Copy, Debug, PartialEq, Eq, Structural)]
pub enum Action {
    /// Start the probe of this port; a worker is free for it.
    Probe(u16),
    /// Wait for a probe in flight to end, and hand in its outcome.
    Wait,
    /// Every port has been probed: finish the scan.
    Finish,
}

/// Why a scan refuses what it is asked.
#[derive(Clone, Copy, Debug, PartialEq, Eq, Structural)]
pub enum ScanError {
    /// An outcome was handed in for a port whose probe is not in flight.
    UnexpectedResult,
    /// The report was asked for while probes are still to be made.
    StillScanning,
    /// The time given at the end lies before the time given at the start.
    ClockWentBack,
}

/// The ports that were found open, in the order of the outcomes.
pub open spec fn opened(outcomes: Seq<(u16, bool)>) -> Seq<u16>
    decreases outcomes.len(),
{
    if outcomes.len() == 0 {
        Seq::empty()
    } else if outcomes.last().1 {
        opened(outcomes.drop_last()).push(outcomes.last().0)
    } else {
        opened(outcomes.drop_last())
    }
}

/// Whether the outcomes hold one for `port`.
pub open spec fn probed(outcomes: Seq<(u16, bool)>, port: u16) -> bool {
    exists|j: int| 0 <= j < outcomes.len() && (#[trigger] outcomes[j]).0 == port
}

/// Whether each outcome is what `accepting` says of its port: open for the
/// ports in it, closed for the others.
pub open spec fn agrees(outcomes: Seq<(u16, bool)>, accepting: Set<u16>) -> bool {
    forall|j: int|
        0 <= j < outcomes.len() ==> (#[trigger] outcomes[j]).1 == accepting.contains(
            outcomes[j].0,
        )
}

/// One scan run in progress.
pub struct Scan {
    target: ScanTarget,
    ports: PortSet,
    pool: WorkerPool,
    collector: ResultCollector,
    started_at: u64,
    log: Ghost<Seq<(u16, bool)>>,
}

impl Scan {
    /// The scan's invariant. The pool's tasks are the ports of the range.
    /// Every port taken from the queue is either in flight or has one
    /// outcome, never both and never twice, and the collector holds the
    /// ports whose outcome was open.
    pub closed spec fn wf(&self) -> bool {
        let first = self.ports.first();
        let taken = self.pool.started();
        let flying = self.pool.in_flight();
        let log = self.log@;
        &&& self.ports.wf()
        &&& self.pool.wf()
        &&& self.collector.wf()
        &&& self.pool.tasks() == self.ports@
        &&& taken <= self.ports.count()
        &&& 0 < self.pool.max_count()
        &&& flying.len() <= self.pool.max_count()
        &&& log.len() == taken - flying.len()
        &&& forall|i: int| 0 <= i < flying.len() ==> first <= #[trigger] flying[i] < first + taken
        &&& forall|i: int, j: int| 0 <= i < j < flying.len() ==> flying[i] != flying[j]
        &&& forall|j: int| 0 <= j < log.len() ==> first <= (#[trigger] log[j]).0 < first + taken
        &&& forall|i: int, j: int| 0 <= i < j < log.len() ==> log[i].0 != log[j].0
        &&& forall|i: int, j: int|
            0 <= i < flying.len() && 0 <= j < log.len() ==> flying[i] != log[j].0
        &&& forall|port: u16|
            first <= port < first + taken ==> flying.contains(port) || #[trigger] probed(log, port)
        &&& self.collector.reported() == opened(log)
    }

    /// The host that the scan probes.
    pub closed spec fn host(&self) -> ScanTarget {
        self.target
    }

    /// The range of ports that the scan probes.
    pub closed spec fn port_set(&self) -> PortSet {
        self.ports
    }

    /// The number of workers.
    pub closed spec fn workers(&self) -> int {
        self.pool.max_count()
    }

    /// The tasks submitted to the pool, in the order of submission.
    pub closed spec fn tasks(&self) -> Seq<u16> {
        self.pool.tasks()
    }

    /// How many ports have been handed out for probing so far.
    pub closed spec fn started(&self) -> int {
        self.pool.started()
    }

    /// The ports whose probes are in flight.
    pub closed spec fn in_flight(&self) -> Seq<u16> {
        self.pool.in_flight()
    }

    /// The outcome of every probe that has ended, in the order they ended:
    /// the port and whether the connection was made.
    pub closed spec fn outcomes(&self) -> Seq<(u16, bool)> {
        self.log@
    }

    /// The open ports found so far, in the order of discovery.
    pub closed spec fn reported(&self) -> Seq<u16> {
        self.collector.reported()
    }

    /// The service table that the entries are written with.
    pub closed spec fn table(&self) -> ServiceTable {
        self.collector.table()
    }

    /// The time at which the scan started, in nanoseconds.
    pub closed spec fn started_at(&self) -> int {
        self.started_at as int
    }

    /// The entries of the open ports found so far.
    pub open spec fn entries(&self) -> Seq<Seq<char>> {
        entries_of(self.reported(), self.table())
    }

    /// Whether every port of the range has been probed.
    pub open spec fn done(&self) -> bool {
        self.started() == self.port_set().count() && self.in_flight().len() == 0
    }

    /// Whether a probe can be started: a worker is free and a port is left.
    pub open spec fn can_probe(&self) -> bool {
        self.in_flight().len() < self.workers() && self.started() < self.port_set().count()
    }

    /// Starts a scan of `target` at the time `now`: submits one probe for
    /// each port of the range to a pool of the configured size.
    pub fn new(options: Options, target: ScanTarget, now: u64) -> (scan: Scan)
        requires
            options.wf(),
        ensures
            scan.wf(),
            scan.host() == target,
            scan.port_set() == options.port_set(),
            scan.workers() == options.workers(),
            scan.table() == options.table(),
            scan.tasks() == options.port_set()@,
            scan.started_at() == now,
            scan.started() == 0,
            scan.in_flight() == Seq::<u16>::empty(),
            scan.outcomes() == Seq::<(u16, bool)>::empty(),
            scan.reported() == Seq::<u16>::empty(),
    {
        let (ports, workers, table) = options.into_parts();
        let mut pool = WorkerPool::new(workers);
        start_scan_thread(&ports, &mut pool);
        let collector = ResultCollector::new(table);
        let scan = Scan {
            target,
            ports,
            pool,
            collector,
            started_at: now,
            log: Ghost(Seq::empty()),
        };
        proof {
            assert(scan.pool.tasks() =~= scan.ports@);
            assert(opened(scan.log@) =~= Seq::<u16>::empty());
        }
        scan
    }

    /// Says what to do next. Where a worker is free and a port is left, the
    /// next port of the range goes in flight and is to be probed. Otherwise
    /// the driver waits for an outcome, or finishes where none is due.
    pub fn next_action(&mut self) -> (action: Action)
        requires
            old(self).wf(),
        ensures
            final(self).wf(),
            final(self).host() == old(self).host(),
            final(self).port_set() == old(self).port_set(),
            final(self).tasks() == old(self).tasks(),
            final(self).workers() == old(self).workers(),
            final(self).table() == old(self).table(),
            final(self).started_at() == old(self).started_at(),
            final(self).outcomes() == old(self).outcomes(),
            final(self).reported() == old(self).reported(),
            action == (if old(self).can_probe() {
                Action::Probe(old(self).port_set()@[old(self).started()])
            } else if old(self).in_flight().len() > 0 {
                Action::Wait
            } else {
                Action::Finish
            }),
            action matches Action::Probe(port) ==> {
                &&& final(self).started() == old(self).started() + 1
                &&& final(self).in_flight() == old(self).in_flight().push(port)
            },
            !(action is Probe) ==> {
                &&& final(self).started() == old(self).started()
                &&& final(self).in_flight() == old(self).in_flight()
            },
            action is Finish <==> old(self).done(),
    {
        match self.pool.take() {
            Some(port) => {
                proof {
                    let first = self.ports.first();
                    let taken = old(self).pool.started();
                    let before = old(self).pool.in_flight();
                    let flying = self.pool.in_flight();
                    let log = self.log@;
                    assert(port == first + taken);
                    assert forall|i: int| 0 <= i < flying.len() implies first
                        <= #[trigger] flying[i] < first + taken + 1 by {
                        if i < before.len() {
                            assert(flying[i] == before[i]);
                        }
                    }
                    assert forall|i: int, j: int| 0 <= i < j < flying.len() implies flying[i]
                        != flying[j] by {
                        assert(flying[i] == before[i]);
                        if j < before.len() {
                            assert(flying[j] == before[j]);
                        }
                    }
                    assert forall|i: int, j: int|
                        0 <= i < flying.len() && 0 <= j < log.len() implies flying[i]
                        != log[j].0 by {
                        if i < before.len() {
                            assert(flying[i] == before[i]);
                        }
                    }
                    assert forall|q: u16| first <= q < first + taken + 1 implies flying.contains(q)
                        || #[trigger] probed(log, q) by {
                        if q == port {
                            assert(flying[before.len() as int] == q);
                        } else if before.contains(q) {
                            let i = choose|i: int| 0 <= i < before.len() && before[i] == q;
                            assert(flying[i] == q);
                        } else {
                            assert(probed(log, q));
                        }
                    }
                }
                Action::Probe(port)
            },
            None => {
                if self.pool.active_count() > 0 {
                    Action::Wait
                } else {
                    Action::Finish
                }
            },
        }
    }

    /// Takes in the outcome of one probe: whether the connection to `port`
    /// was made. The port leaves the probes in flight, and where it is open
    /// the collector gets it; the console line that announces it is given
    /// back. An outcome for a port whose probe is not in flight is an error
    /// and changes nothing.
    pub fn on_result(&mut self, port: u16, connected: bool) -> (taken: Result<
        Option<String>,
        ScanError,
    >)
        requires
            old(self).wf(),
        ensures
            final(self).wf(),
            final(self).host() == old(self).host(),
            final(self).port_set() == old(self).port_set(),
            final(self).tasks() == old(self).tasks(),
            final(self).workers() == old(self).workers(),
            final(self).table() == old(self).table(),
            final(self).started_at() == old(self).started_at(),
            final(self).started() == old(self).started(),
            taken is Ok <==> old(self).in_flight().contains(port),
            taken matches Err(error) ==> {
                &&& error == ScanError::UnexpectedResult
                &&& final(self).in_flight() == old(self).in_flight()
                &&& final(self).outcomes() == old(self).outcomes()
                &&& final(self).reported() == old(self).reported()
            },
            taken matches Ok(notice) ==> {
                &&& final(self).in_flight() == old(self).in_flight().remove(
                    first_place(old(self).in_flight(), port),
                )
                &&& final(self).in_flight().len() == old(self).in_flight().len() - 1
                &&& !final(self).in_flight().contains(port)
                &&& final(self).outcomes() == old(self).outcomes().push((port, connected))
                &&& final(self).reported() == (if connected {
                    old(self).reported().push(port)
                } else {
                    old(self).reported()
                })
                &&& notice is Some <==> connected
                &&& notice matches Some(line) ==> line@ == notice_text(port)
            },
    {
        if !self.pool.complete(port) {
            return Err(ScanError::UnexpectedResult);
        }
        let ghost before = old(self).pool.in_flight();
        let ghost at = first_place(before, port);
        let ghost earlier = self.log@;
        proof {
            let j = choose|j: int| 0 <= j < before.len() && before[j] == port;
            lemma_place_of_one(before, port, j);
        }
        self.log = Ghost(earlier.push((port, connected)));
        let notice = match port_checker(port, connected) {
            Some(open) => Some(self.collector.record(open)),
            None => None,
        };
        proof {
            let first = self.ports.first();
            let taken_count = self.pool.started();
            let flying = self.pool.in_flight();
            let log = self.log@;
            assert(log.drop_last() =~= earlier);
            assert(flying =~= before.remove(at));
            assert forall|i: int| 0 <= i < flying.len() implies first <= #[trigger] flying[i]
                < first + taken_count && flying[i] != port by {
                if i < at {
                    assert(flying[i] == before[i]);
                } else {
                    assert(flying[i] == before[i + 1]);
                }
            }
            assert forall|i: int, j: int| 0 <= i < j < flying.len() implies flying[i]
                != flying[j] by {
                let a = if i < at { i } else { i + 1 };
                let b = if j < at { j } else { j + 1 };
                assert(flying[i] == before[a]);
                assert(flying[j] == before[b]);
            }
            assert forall|j: int| 0 <= j < log.len() implies first <= (#[trigger] log[j]).0
                < first + taken_count by {
                if j < earlier.len() {
                    assert(log[j] == earlier[j]);
                } else {
                    assert(before[at] == port);
                }
            }
            assert forall|i: int, j: int| 0 <= i < j < log.len() implies log[i].0
                != log[j].0 by {
                assert(log[i] == earlier[i]);
                if j < earlier.len() {
                    assert(log[j] == earlier[j]);
                } else {
                    assert(before[at] == port);
                }
            }
            assert forall|i: int, j: int|
                0 <= i < flying.len() && 0 <= j < log.len() implies flying[i] != log[j].0 by {
                let a = if i < at { i } else { i + 1 };
                assert(flying[i] == before[a]);
                if j < earlier.len() {
                    assert(log[j] == earlier[j]);
                }
            }
            assert forall|q: u16| first <= q < first + taken_count implies flying.contains(q)
                || #[trigger] probed(log, q) by {
                if q == port {
                    assert(log[earlier.len() as int].0 == q);
                } else if before.contains(q) {
                    let i = choose|i: int| 0 <= i < before.len() && before[i] == q;
                    if i < at {
                        assert(flying[i] == q);
                    } else {
                        assert(flying[i - 1] == q);
                    }
                } else {
                    assert(probed(earlier, q));
                    let j = choose|j: int| 0 <= j < earlier.len() && (#[trigger] earlier[j]).0 == q;
                    assert(log[j].0 == q);
                }
            }
            if flying.contains(port) {
                let i = choose|i: int| 0 <= i < flying.len() && flying[i] == port;
                assert(flying[i] != port);
            }
        }
        Ok(notice)
    }

    /// The host that the scan probes.
    pub fn target(&self) -> (target: &ScanTarget)
        ensures
            *target == self.host(),
    {
        &self.target
    }

    /// The range of ports that the scan probes.
    pub fn ports(&self) -> (set: PortSet)
        ensures
            set == self.port_set(),
    {
        self.ports
    }

    /// The number of probes in flight.
    pub fn active_count(&self) -> (n: usize)
        ensures
            n == self.in_flight().len(),
    {
        self.pool.active_count()
    }

    /// The number of open ports found so far.
    pub fn open_count(&self) -> (n: usize)
        ensures
            n == self.reported().len(),
    {
        self.collector.count()
    }

    /// Whether every port of the range has been probed.
    pub fn is_done(&self) -> (done: bool)
        requires
            self.wf(),
        ensures
            done == self.done(),
    {
        self.pool.is_idle()
    }

    /// Ends the scan at the time `now` and gives the report: the open ports
    /// and their entries in the order of discovery, and the time taken.
    /// Refuses while ports are left to probe, and where `now` lies before
    /// the start.
    pub fn finish(self, now: u64) -> (ended: Result<ScanReport, ScanError>)
        requires
            self.wf(),
        ensures
            ended is Ok <==> self.done() && now >= self.started_at(),
            ended matches Err(error) ==> error == (if !self.done() {
                ScanError::StillScanning
            } else {
                ScanError::ClockWentBack
            }),
            ended matches Ok(report) ==> {
                &&& report.host() == self.host().name()
                &&& report.reported() == self.reported()
                &&& report.entries() == self.entries()
                &&& report.elapsed() == now - self.started_at()
            },
    {
        if !self.pool.is_idle() {
            return Err(ScanError::StillScanning);
        }
        if now < self.started_at {
            return Err(ScanError::ClockWentBack);
        }
        let elapsed = now - self.started_at;
        let (ports, open_ports) = self.collector.finish();
        Ok(ScanReport::new(self.target.into_hostname(), ports, open_ports, elapsed))
    }
}

/// Whether the outcomes hold an open one for `port`.
pub open spec fn found_open(outcomes: Seq<(u16, bool)>, port: u16) -> bool {
    exists|j: int| 0 <= j < outcomes.len() && #[trigger] outcomes[j] == (port, true)
}

/// Whether no port has two outcomes.
pub open spec fn one_outcome_each(outcomes: Seq<(u16, bool)>) -> bool {
    forall|i: int, j: int| 0 <= i < j < outcomes.len() ==> outcomes[i].0 != outcomes[j].0
}

/// The open ports are the ports of the open outcomes, and no more of them
/// than there are outcomes.
proof fn lemma_opened(outcomes: Seq<(u16, bool)>)
    ensures
        opened(outcomes).len() <= outcomes.len(),
        forall|port: u16| opened(outcomes).contains(port) <==> #[trigger] found_open(outcomes, port),
    decreases outcomes.len(),
{
    if outcomes.len() > 0 {
        let rest = outcomes.drop_last();
        let end = outcomes.last();
        lemma_opened(rest);
        assert forall|port: u16| opened(outcomes).contains(port) implies #[trigger] found_open(
            outcomes,
            port,
        ) by {
            let at = choose|at: int| 0 <= at < opened(outcomes).len() && opened(outcomes)[at] == port;
            if end.1 && at == opened(rest).len() {
                assert(outcomes[outcomes.len() - 1] == (port, true));
            } else {
                assert(opened(rest)[at] == port);
                assert(found_open(rest, port));
                let j = choose|j: int| 0 <= j < rest.len() && #[trigger] rest[j] == (port, true);
                assert(outcomes[j] == (port, true));
            }
        }
        assert forall|port: u16| #[trigger] found_open(outcomes, port) implies opened(
            outcomes,
        ).contains(port) by {
            let j = choose|j: int| 0 <= j < outcomes.len() && #[trigger] outcomes[j] == (port, true);
            if j == outcomes.len() - 1 {
                assert(opened(outcomes)[opened(rest).len() as int] == port);
            } else {
                assert(rest[j] == (port, true));
                assert(found_open(rest, port));
                let at = choose|at: int| 0 <= at < opened(rest).len() && opened(rest)[at] == port;
                assert(opened(outcomes)[at] == port);
            }
        }
    }
}

/// Where no port has two outcomes, no port is listed as open twice.
proof fn lemma_opened_once(outcomes: Seq<(u16, bool)>)
    requires
        one_outcome_each(outcomes),
    ensures
        opened(outcomes).no_duplicates(),
    decreases outcomes.len(),
{
    if outcomes.len() > 0 {
        let rest = outcomes.drop_last();
        let end = outcomes.last();
        assert(one_outcome_each(rest)) by {
            assert forall|i: int, j: int| 0 <= i < j < rest.len() implies rest[i].0
                != rest[j].0 by {
                assert(rest[i] == outcomes[i] && rest[j] == outcomes[j]);
            }
        }
        lemma_opened_once(rest);
        lemma_opened(rest);
        if end.1 {
            if opened(rest).contains(end.0) {
                assert(found_open(rest, end.0));
                let j = choose|j: int| 0 <= j < rest.len() && #[trigger] rest[j] == (end.0, true);
                assert(outcomes[j].0 == outcomes[outcomes.len() - 1].0);
            }
            assert forall|i: int, j: int|
                0 <= i < j < opened(outcomes).len() implies opened(outcomes)[i] != opened(
                outcomes,
            )[j] by {
                assert(opened(outcomes)[i] == opened(rest)[i]);
                if j < opened(rest).len() {
                    assert(opened(outcomes)[j] == opened(rest)[j]);
                } else {
                    assert(opened(rest).contains(opened(rest)[i]));
                }
            }
        }
    }
}

/// At no point are more probes in flight than the scan has workers.
pub proof fn lemma_concurrency_bound(scan: Scan)
    requires
        scan.wf(),
    ensures
        scan.in_flight().len() <= scan.workers(),
{
}

/// One task is submitted for each port of the range: the tasks are the
/// ports of the range in ascending order, `last - first + 1` of them. At
/// every point each port that was handed out is either in flight or has
/// exactly one outcome, and no other port is in flight or has an outcome.
pub proof fn lemma_each_port_probed_once(scan: Scan)
    requires
        scan.wf(),
    ensures
        scan.tasks() == scan.port_set()@,
        scan.tasks().len() == scan.port_set().last() - scan.port_set().first() + 1,
        scan.started() <= scan.tasks().len(),
        scan.outcomes().len() + scan.in_flight().len() == scan.started(),
        one_outcome_each(scan.outcomes()),
        scan.in_flight().no_duplicates(),
        forall|port: u16|
            scan.port_set().first() <= port < scan.port_set().first() + scan.started() <==> (
            scan.in_flight().contains(port) || #[trigger] probed(scan.outcomes(), port)),
        forall|port: u16|
            !(scan.in_flight().contains(port) && #[trigger] probed(scan.outcomes(), port)),
{
    let first = scan.port_set().first();
    let flying = scan.in_flight();
    let log = scan.outcomes();
    assert forall|port: u16|
        (flying.contains(port) || #[trigger] probed(log, port)) implies first <= port < first
        + scan.started() by {
        if flying.contains(port) {
            let i = choose|i: int| 0 <= i < flying.len() && flying[i] == port;
            assert(first <= flying[i]);
        } else {
            let j = choose|j: int| 0 <= j < log.len() && (#[trigger] log[j]).0 == port;
            assert(first <= log[j].0);
        }
    }
    assert forall|port: u16| !(flying.contains(port) && #[trigger] probed(log, port)) by {
        if flying.contains(port) && probed(log, port) {
            let i = choose|i: int| 0 <= i < flying.len() && flying[i] == port;
            let j = choose|j: int| 0 <= j < log.len() && (#[trigger] log[j]).0 == port;
            assert(flying[i] != log[j].0);
        }
    }
}

/// When the scan is done, every port of the range has exactly one outcome
/// and no other port has one.
pub proof fn lemma_all_probed_when_done(scan: Scan)
    requires
        scan.wf(),
        scan.done(),
    ensures
        scan.outcomes().len() == scan.port_set().count(),
        one_outcome_each(scan.outcomes()),
        forall|port: u16| scan.port_set().has(port as int) <==> #[trigger] probed(
            scan.outcomes(),
            port,
        ),
{
    lemma_each_port_probed_once(scan);
    let flying = scan.in_flight();
    assert forall|port: u16| scan.port_set().has(port as int) <==> #[trigger] probed(
        scan.outcomes(),
        port,
    ) by {
        if flying.contains(port) {
            let i = choose|i: int| 0 <= i < flying.len() && flying[i] == port;
        }
    }
}

/// The collector never holds more open ports than probes were submitted,
/// every port it holds lies in the range, had an open outcome, and is held
/// once.
pub proof fn lemma_report_within_ports(scan: Scan)
    requires
        scan.wf(),
    ensures
        scan.reported() == opened(scan.outcomes()),
        scan.reported().len() <= scan.outcomes().len(),
        scan.reported().len() <= scan.started() <= scan.port_set().count(),
        scan.reported().no_duplicates(),
        forall|i: int|
            0 <= i < scan.reported().len() ==> scan.port_set().has(
                #[trigger] scan.reported()[i] as int,
            ),
{
    let log = scan.outcomes();
    let found = scan.reported();
    lemma_opened(log);
    lemma_opened_once(log);
    assert forall|i: int| 0 <= i < found.len() implies scan.port_set().has(
        #[trigger] found[i] as int,
    ) by {
        assert(found.contains(found[i]));
        assert(found_open(log, found[i]));
        let j = choose|j: int| 0 <= j < log.len() && #[trigger] log[j] == (found[i], true);
        assert(scan.port_set().first() <= log[j].0);
    }
}

/// When the scan is done and each probe's outcome was what `accepting` says
/// of its port, the open ports reported are exactly the ports of the range
/// that are in `accepting`, in whatever order the outcomes came.
pub proof fn lemma_report_is_accepting_ports(scan: Scan, accepting: Set<u16>)
    requires
        scan.wf(),
        scan.done(),
        agrees(scan.outcomes(), accepting),
    ensures
        scan.reported().to_set() == Set::new(
            |port: u16| scan.port_set().has(port as int) && accepting.contains(port),
        ),
{
    let log = scan.outcomes();
    let found = scan.reported();
    let wanted = Set::new(|port: u16| scan.port_set().has(port as int) && accepting.contains(port));
    lemma_opened(log);
    lemma_all_probed_when_done(scan);
    assert forall|port: u16| found.to_set().contains(port) <==> wanted.contains(port) by {
        if found.contains(port) {
            assert(found_open(log, port));
            let j = choose|j: int| 0 <= j < log.len() && #[trigger] log[j] == (port, true);
            assert(log[j].0 == port);
            assert(probed(log, port));
        }
        if wanted.contains(port) {
            assert(probed(log, port));
            let j = choose|j: int| 0 <= j < log.len() && (#[trigger] log[j]).0 == port;
            assert(log[j] == (port, true));
            assert(found_open(log, port));
        }
    }
    assert(found.to_set() =~= wanted);
}

/// Two scans of the same range against the same accepting ports report the
/// same set of open ports, though perhaps in another order.
pub proof fn lemma_scan_twice(first: Scan, second: Scan, accepting: Set<u16>)
    requires
        first.wf(),
        second.wf(),
        first.done(),
        second.done(),
        first.port_set() == second.port_set(),
        agrees(first.outcomes(), accepting),
        agrees(second.outcomes(), accepting),
    ensures
        first.reported().to_set() == second.reported().to_set(),
{
    lemma_report_is_accepting_ports(first, accepting);
    lemma_report_is_accepting_ports(second, accepting);
}

/// In a list without repetition, the first place of a value is its place.
proof fn lemma_place_of_one(s: Seq<u16>, value: u16, at: int)
    requires
        0 <= at < s.len(),
        s[at] == value,
        forall|i: int, j: int| 0 <= i < j < s.len() ==> s[i] != s[j],
    ensures
        first_place(s, value) == at,
{
    assert(is_first_place(s, value, at));
    lemma_first_place(s, value, at);
}

} // verus!
