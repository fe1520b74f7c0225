//! The configuration of a scan and the bookkeeping of its probes: which
//! port goes out next, how many probes are under way, and what has come
//! back. The caller runs the probes; the scheduler decides.

use crate::outcome::ProbeOutcome;
use crate::ports::{ConfigError, PortCursor, PortRange, PortSpec, Protocol};
use crate::report::{
    ascending, has_port, lemma_ascending_fills, lemma_order_determined, line_of, protocol_eq,
    result_line, ScanReport,
};
use vstd::prelude::*;

verus! {

/// The concurrency limit of a scan: what was asked for, or else what the
/// host offers.
pub fn concurrency_limit(requested: Option<usize>, available: usize) -> (limit: usize)
    ensures
        limit == match requested {
            Some(n) => n,
            None => available,
        },
{
    match requested {
        Some(n) => n,
        None => available,
    }
}

/// What a scan is to do. Made once, read from then on.
#[derive(Debug)]
pub struct ScanJob {
    pub target: String,
    pub range: PortRange,
    pub tcp: bool,
    pub udp: bool,
    pub concurrency: usize,
    pub timeout_ms: u64,
    pub inspect: bool,
    /// Where the result lines are to be kept, if anywhere.
    pub output: Option<String>,
}

impl ScanJob {
    /// The range is in order, and limit and timeout are positive.
    pub open spec fn wf(&self) -> bool {
        &&& self.range.wf()
        &&& self.concurrency >= 1
        &&& self.timeout_ms >= 1
    }

    /// Whether the job is one that `new` would have made.
    pub fn is_valid(&self) -> (valid: bool)
        ensures
            valid == self.wf(),
    {
        self.range.start <= self.range.end && self.concurrency >= 1 && self.timeout_ms >= 1
    }

    /// What is wrong with a configuration, if anything: the port range is
    /// looked at first, then the concurrency limit, then the timeout.
    pub open spec fn fault(start: u16, end: u16, concurrency: usize, timeout_ms: u64) -> Option<
        ConfigError,
    > {
        if start > end {
            Some(ConfigError::InvalidPortRange)
        } else if concurrency == 0 {
            Some(ConfigError::ZeroConcurrency)
        } else if timeout_ms == 0 {
            Some(ConfigError::ZeroTimeout)
        } else {
            None
        }
    }

    /// Checks a configuration and makes the job of it.
    pub fn new(
        target: String,
        start: u16,
        end: u16,
        tcp: bool,
        udp: bool,
        concurrency: usize,
        timeout_ms: u64,
        inspect: bool,
        output: Option<String>,
    ) -> (r: Result<ScanJob, ConfigError>)
        ensures
            match ScanJob::fault(start, end, concurrency, timeout_ms) {
                Some(e) => r == Err::<ScanJob, ConfigError>(e),
                None => r == Ok::<ScanJob, ConfigError>(
                    ScanJob {
                        target,
                        range: PortRange { start, end },
                        tcp,
                        udp,
                        concurrency,
                        timeout_ms,
                        inspect,
                        output,
                    },
                ) && r->Ok_0.wf(),
            },
    {
        if start > end {
            Err(ConfigError::InvalidPortRange)
        } else if concurrency == 0 {
            Err(ConfigError::ZeroConcurrency)
        } else if timeout_ms == 0 {
            Err(ConfigError::ZeroTimeout)
        } else {
            Ok(
                ScanJob {
                    target,
                    range: PortRange { start, end },
                    tcp,
                    udp,
                    concurrency,
                    timeout_ms,
                    inspect,
                    output,
                },
            )
        }
    }

    /// The protocols to scan, in the order in which they are scanned.
    pub open spec fn protocols_spec(&self) -> Seq<Protocol> {
        (if self.tcp {
            seq![Protocol::Tcp]
        } else {
            Seq::empty()
        }) + (if self.udp {
            seq![Protocol::Udp]
        } else {
            Seq::empty()
        })
    }

    /// The protocols to scan: TCP before UDP.
    pub fn protocols(&self) -> (v: Vec<Protocol>)
        ensures
            v@ == self.protocols_spec(),
    {
        let mut v: Vec<Protocol> = Vec::new();
        if self.tcp {
            v.push(Protocol::Tcp);
        }
        if self.udp {
            v.push(Protocol::Udp);
        }
        assert(v@ =~= self.protocols_spec());
        v
    }

    /// A scheduler for the job's ports under one protocol, with nothing
    /// sent out yet.
    pub fn scheduler(&self, protocol: Protocol) -> (s: Scheduler)
        requires
            self.wf(),
        ensures
            s.wf(),
            s.cursor == (PortCursor { range: self.range, protocol, taken: 0 }),
            s.limit == self.concurrency,
            s.inspect == self.inspect,
            s.in_flight == 0,
            !s.stopped,
            s.report.entries@.len() == 0,
    {
        Scheduler {
            cursor: PortCursor::new(self.range, protocol),
            limit: self.concurrency,
            inspect: self.inspect,
            in_flight: 0,
            stopped: false,
            report: ScanReport::new(protocol),
        }
    }
}

/// What the caller is to do next.
#[derive(Clone, Copy, Debug, PartialEq, Eq, Structural)]
pub enum Step {
    /// Start a probe of this port.
    Dispatch(PortSpec),
    /// Start nothing; wait for a probe that is under way to come back.
    Wait,
    /// Nothing is under way and nothing is left to start.
    Done,
}

/// Why an outcome was not taken.
#[derive(Clone, Copy, Debug, PartialEq, Eq, Structural)]
pub enum ScheduleError {
    /// No probe is under way.
    NothingInFlight,
    /// The outcome is of another protocol than the scan.
    WrongProtocol,
    /// No probe of this port has been started.
    NotDispatched,
    /// This port has been reported already.
    AlreadyReported,
}

/// What follows from an outcome that was taken.
#[derive(Debug)]
pub struct Completion {
    /// The line to put out, for an open port.
    pub line: Option<String>,
    /// Whether the port is to be inspected.
    pub inspect: bool,
}

/// The state of a scan under one protocol.
#[derive(Debug)]
pub struct Scheduler {
    /// The ports of the scan; what it has handed out has been sent out.
    pub cursor: PortCursor,
    /// How many probes may be under way at once.
    pub limit: usize,
    pub inspect: bool,
    /// How many probes are under way.
    pub in_flight: usize,
    /// Whether the scan was told to start no more probes.
    pub stopped: bool,
    pub report: ScanReport,
}

impl Scheduler {
    /// At most `limit` probes are under way; every port sent out is under
    /// way or reported; and the report holds only ports that were sent out.
    pub open spec fn wf(&self) -> bool {
        &&& self.cursor.wf()
        &&& self.limit >= 1
        &&& self.in_flight <= self.limit
        &&& self.in_flight + self.report.entries@.len() == self.cursor.taken
        &&& self.report.wf()
        &&& self.report.protocol == self.cursor.protocol
        &&& forall|i: int|
            0 <= i < self.report.entries@.len() ==> self.was_dispatched(
                (#[trigger] self.report.entries@[i]).port,
            )
    }

    /// Whether a probe of `port` has been started.
    pub open spec fn was_dispatched(&self, port: u16) -> bool {
        self.cursor.range.start <= port < self.cursor.range.start + self.cursor.taken
    }

    /// Whether a further probe may start now.
    pub open spec fn can_dispatch(&self) -> bool {
        !self.stopped && self.cursor.taken < self.cursor.range.count() && self.in_flight
            < self.limit
    }

    /// The port that goes out next.
    pub open spec fn next_port(&self) -> PortSpec {
        PortSpec {
            port: (self.cursor.range.start + self.cursor.taken) as u16,
            protocol: self.cursor.protocol,
        }
    }

    /// Why `outcome` is not taken, if it is not: the reasons are looked at
    /// in the order of `ScheduleError`.
    pub open spec fn refusal(&self, outcome: ProbeOutcome) -> Option<ScheduleError> {
        if self.in_flight == 0 {
            Some(ScheduleError::NothingInFlight)
        } else if outcome.protocol != self.cursor.protocol {
            Some(ScheduleError::WrongProtocol)
        } else if !self.was_dispatched(outcome.port) {
            Some(ScheduleError::NotDispatched)
        } else if has_port(self.report.entries@, outcome.port) {
            Some(ScheduleError::AlreadyReported)
        } else {
            None
        }
    }

    /// Decides the next step. A probe starts where the scan was not
    /// stopped, a port is left and fewer probes than the limit are under
    /// way; the ports go out in ascending order.
    pub fn next(&mut self) -> (step: Step)
        requires
            old(self).wf(),
        ensures
            final(self).wf(),
            old(self).can_dispatch() ==> step == Step::Dispatch(old(self).next_port())
                && *final(self) == (Scheduler {
                cursor: PortCursor {
                    taken: (old(self).cursor.taken + 1) as u32,
                    ..old(self).cursor
                },
                in_flight: (old(self).in_flight + 1) as usize,
                ..*old(self)
            }),
            !old(self).can_dispatch() ==> *final(self) == *old(self) && step == (if old(
                self,
            ).in_flight > 0 {
                Step::Wait
            } else {
                Step::Done
            }),
    {
        if !self.stopped && self.in_flight < self.limit {
            match self.cursor.next() {
                Some(spec) => {
                    self.in_flight = self.in_flight + 1;
                    return Step::Dispatch(spec);
                },
                None => {},
            }
        }
        if self.in_flight > 0 {
            Step::Wait
        } else {
            Step::Done
        }
    }

    /// Takes the outcome of a probe that was under way: it goes into the
    /// report at its place by port, and one probe fewer is under way. For
    /// an open port the result line is handed back, and whether the port is
    /// to be inspected. An outcome that does not belong to a probe under
    /// way is refused, and nothing changes.
    pub fn complete(&mut self, outcome: ProbeOutcome) -> (r: Result<Completion, ScheduleError>)
        requires
            old(self).wf(),
            outcome.wf(),
        ensures
            final(self).wf(),
            match old(self).refusal(outcome) {
                Some(e) => r == Err::<Completion, ScheduleError>(e) && *final(self) == *old(self),
                None => {
                    &&& r is Ok
                    &&& r->Ok_0.inspect == (old(self).inspect && outcome.open)
                    &&& outcome.open ==> r->Ok_0.line is Some && r->Ok_0.line->0@ == line_of(
                        outcome@,
                    )
                    &&& !outcome.open ==> r->Ok_0.line is None
                    &&& final(self).in_flight == old(self).in_flight - 1
                    &&& exists|k: int|
                        0 <= k <= old(self).report.entries@.len() && final(self).report.entries@
                            == #[trigger] old(self).report.entries@.insert(k, outcome)
                    &&& ascending(final(self).report.entries@)
                    &&& final(self).cursor == old(self).cursor
                    &&& final(self).limit == old(self).limit
                    &&& final(self).inspect == old(self).inspect
                    &&& final(self).stopped == old(self).stopped
                },
            },
    {
        if self.in_flight == 0 {
            return Err(ScheduleError::NothingInFlight);
        }
        if !protocol_eq(outcome.protocol, self.cursor.protocol) {
            return Err(ScheduleError::WrongProtocol);
        }
        let sent = outcome.port >= self.cursor.range.start && ((outcome.port
            - self.cursor.range.start) as u32) < self.cursor.taken;
        if !sent {
            return Err(ScheduleError::NotDispatched);
        }
        let (_, found) = self.report.position(outcome.port);
        if found {
            return Err(ScheduleError::AlreadyReported);
        }
        let line = result_line(&outcome);
        let inspect = self.inspect && outcome.open;
        let ghost before = self.report.entries@;
        let placed = self.report.insert(outcome);
        self.in_flight = self.in_flight - 1;
        proof {
            let k = placed->0 as int;
            assert(self.report.entries@ == before.insert(k, outcome));
            assert forall|i: int| 0 <= i < self.report.entries@.len() implies self.was_dispatched(
                (#[trigger] self.report.entries@[i]).port,
            ) by {
                if i < k {
                    assert(self.report.entries@[i] == before[i]);
                } else if i > k {
                    assert(self.report.entries@[i] == before[i - 1]);
                }
            }
        }
        Ok(Completion { line, inspect })
    }

    /// Tells the scan to start no more probes. Those under way run on.
    pub fn stop(&mut self)
        requires
            old(self).wf(),
        ensures
            final(self).wf(),
            *final(self) == (Scheduler { stopped: true, ..*old(self) }),
            !final(self).can_dispatch(),
    {
        self.stopped = true;
    }

    /// Whether nothing is under way and nothing is left to start.
    pub fn is_done(&self) -> (done: bool)
        requires
            self.wf(),
        ensures
            done == (!self.can_dispatch() && self.in_flight == 0),
    {
        let can = !self.stopped && !self.cursor.is_exhausted() && self.in_flight < self.limit;
        !can && self.in_flight == 0
    }

    /// The report as it stands.
    pub fn into_report(self) -> (report: ScanReport)
        requires
            self.wf(),
        ensures
            report == self.report,
            report.wf(),
    {
        self.report
    }
}

/// A scan that was not stopped and has come to its end reports every port
/// of its range, each once, in ascending order.
pub proof fn lemma_done_is_complete(s: Scheduler)
    requires
        s.wf(),
        !s.stopped,
        !s.can_dispatch(),
        s.in_flight == 0,
    ensures
        s.report.entries@.len() == s.cursor.range.count(),
        forall|i: int|
            0 <= i < s.cursor.range.count() ==> (#[trigger] s.report.entries@[i]).port
                == s.cursor.range.start + i,
        s.report.entries@.map_values(|o: ProbeOutcome| o.port as int)
            == s.cursor.range.ports_spec(),
{
    lemma_ascending_fills(
        s.report.entries@,
        s.cursor.range.start as int,
        s.cursor.range.count(),
    );
    assert(s.report.entries@.map_values(|o: ProbeOutcome| o.port as int)
        =~= s.cursor.range.ports_spec());
}

/// The concurrency limit does not show in the result: two scans, run with
/// whatever limits and in whatever order their probes came back, that hold
/// the same set of outcomes hold the same report.
pub proof fn lemma_limit_independent(a: Scheduler, b: Scheduler)
    requires
        a.wf(),
        b.wf(),
        a.report.entries@.to_set() == b.report.entries@.to_set(),
    ensures
        a.report.entries@ == b.report.entries@,
{
    lemma_order_determined(a.report.entries@, b.report.entries@);
}

} // verus!
