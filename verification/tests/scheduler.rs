use neteye::outcome::{Observation, ProbeOutcome};
use neteye::ports::{ConfigError, PortRange, PortSpec, Protocol};
use neteye::scheduler::{concurrency_limit, ScanJob, ScheduleError, Scheduler, Step};

fn job(start: u16, end: u16, concurrency: usize, inspect: bool) -> ScanJob {
    ScanJob::new("127.0.0.1".to_string(), start, end, true, false, concurrency, 500, inspect, None).unwrap()
}

fn observe(spec: PortSpec) -> Observation {
    if spec.port == 22 {
        Observation::Response(b"SSH-2.0-OpenSSH_8.9\r\n".to_vec())
    } else if spec.port == 80 {
        Observation::Response(b"HTTP/1.1 200 OK\r\nServer: nginx\r\n\r\n".to_vec())
    } else if spec.port == 99 {
        Observation::Silent
    } else {
        Observation::Unreachable
    }
}

/// Runs a scan to its end; of the probes under way, the one at index
/// `pick % in_flight` comes back first. Returns the report, the lines put
/// out and the highest number of probes under way.
fn run(job: &ScanJob, pick: usize) -> (Vec<ProbeOutcome>, Vec<String>, usize) {
    let mut scheduler = job.scheduler(Protocol::Tcp);
    let mut under_way: Vec<PortSpec> = Vec::new();
    let mut lines: Vec<String> = Vec::new();
    let mut peak: usize = 0;
    loop {
        match scheduler.next() {
            Step::Dispatch(spec) => {
                under_way.push(spec);
                if under_way.len() > peak {
                    peak = under_way.len();
                }
                assert_eq!(scheduler.in_flight, under_way.len());
            }
            Step::Wait => {
                let spec = under_way.remove(pick % under_way.len());
                let outcome = ProbeOutcome::from_observation(job.target.clone(), spec, observe(spec), 1);
                let open = outcome.open;
                let done = scheduler.complete(outcome).unwrap();
                assert_eq!(done.line.is_some(), open);
                assert_eq!(done.inspect, open && job.inspect);
                if let Some(line) = done.line {
                    lines.push(line);
                }
            }
            Step::Done => {
                assert!(under_way.is_empty());
                assert!(scheduler.is_done());
                break;
            }
        }
    }
    (scheduler.into_report().entries, lines, peak)
}

#[test]
fn ten_closed_ports() {
    let job = ScanJob::new("127.0.0.1".to_string(), 1, 10, true, false, 4, 500, false, None).unwrap();
    let (report, lines, peak) = run(&job, 0);
    assert_eq!(report.len(), 10);
    assert!(report.iter().all(|o| !o.open));
    let ports: Vec<u16> = report.iter().map(|o| o.port).collect();
    assert_eq!(ports, vec![1, 2, 3, 4, 5, 6, 7, 8, 9, 10]);
    assert!(lines.is_empty());
    assert_eq!(peak, 4);
}

#[test]
fn same_report_for_any_concurrency() {
    let (one, lines_one, peak_one) = run(&job(1, 120, 1, false), 0);
    let (many, lines_many, peak_many) = run(&job(1, 120, 64, false), 37);
    assert_eq!(peak_one, 1);
    assert_eq!(peak_many, 64);
    assert_eq!(one.len(), 120);
    assert_eq!(one, many);
    let mut a = lines_one.clone();
    let mut b = lines_many.clone();
    a.sort();
    b.sort();
    assert_eq!(a, b);
    assert_eq!(
        lines_one,
        vec![
            "22/tcp   open   ssh   SSH-2.0-OpenSSH_8.9".to_string(),
            "80/tcp   open   http   Server: nginx".to_string(),
            "99/tcp   open   unknown   unknown".to_string(),
        ]
    );
}

#[test]
fn never_more_in_flight_than_the_limit() {
    for limit in [1usize, 2, 3, 7, 64, 1000] {
        let (report, _, peak) = run(&job(1, 50, limit, false), 5);
        assert!(peak <= limit);
        assert_eq!(peak, limit.min(50));
        assert_eq!(report.len(), 50);
    }
}

#[test]
fn dispatch_goes_up_by_port() {
    let mut s = job(100, 102, 8, false).scheduler(Protocol::Udp);
    assert_eq!(s.next(), Step::Dispatch(PortSpec { port: 100, protocol: Protocol::Udp }));
    assert_eq!(s.next(), Step::Dispatch(PortSpec { port: 101, protocol: Protocol::Udp }));
    assert_eq!(s.next(), Step::Dispatch(PortSpec { port: 102, protocol: Protocol::Udp }));
    assert_eq!(s.next(), Step::Wait);
    assert_eq!(s.in_flight, 3);
    assert_eq!(s.cursor.taken, 3);
}

#[test]
fn inspect_is_asked_for_open_ports_only() {
    let mut s = job(22, 23, 2, true).scheduler(Protocol::Tcp);
    let a = match s.next() {
        Step::Dispatch(spec) => spec,
        _ => panic!("nothing sent out"),
    };
    let b = match s.next() {
        Step::Dispatch(spec) => spec,
        _ => panic!("nothing sent out"),
    };
    let second = s.complete(ProbeOutcome::from_observation("h".to_string(), b, observe(b), 1)).unwrap();
    assert!(!second.inspect);
    assert_eq!(second.line, None);
    let first = s.complete(ProbeOutcome::from_observation("h".to_string(), a, observe(a), 1)).unwrap();
    assert!(first.inspect);
    assert_eq!(first.line, Some("22/tcp   open   ssh   SSH-2.0-OpenSSH_8.9".to_string()));
    assert_eq!(s.next(), Step::Done);
    let report = s.into_report();
    assert_eq!(report.open_ports(), vec![22]);
}

#[test]
fn outcomes_that_do_not_belong_are_refused() {
    let mut s = job(10, 20, 2, false).scheduler(Protocol::Tcp);
    let closed = |port: u16, protocol: Protocol| ProbeOutcome::closed("h".to_string(), PortSpec { port, protocol }, 1);
    assert_eq!(s.complete(closed(10, Protocol::Tcp)).unwrap_err(), ScheduleError::NothingInFlight);
    assert_eq!(s.next(), Step::Dispatch(PortSpec { port: 10, protocol: Protocol::Tcp }));
    assert_eq!(s.next(), Step::Dispatch(PortSpec { port: 11, protocol: Protocol::Tcp }));
    assert_eq!(s.complete(closed(10, Protocol::Udp)).unwrap_err(), ScheduleError::WrongProtocol);
    assert_eq!(s.complete(closed(12, Protocol::Tcp)).unwrap_err(), ScheduleError::NotDispatched);
    assert_eq!(s.complete(closed(9, Protocol::Tcp)).unwrap_err(), ScheduleError::NotDispatched);
    assert!(s.complete(closed(11, Protocol::Tcp)).is_ok());
    assert_eq!(s.complete(closed(11, Protocol::Tcp)).unwrap_err(), ScheduleError::AlreadyReported);
    assert_eq!(s.in_flight, 1);
    assert_eq!(s.report.len(), 1);
}

#[test]
fn stopping_starts_no_more_probes() {
    let mut s = job(1, 100, 2, false).scheduler(Protocol::Tcp);
    let first = match s.next() {
        Step::Dispatch(spec) => spec,
        _ => panic!("nothing sent out"),
    };
    s.stop();
    assert_eq!(s.next(), Step::Wait);
    assert!(!s.is_done());
    s.complete(ProbeOutcome::closed("h".to_string(), first, 1)).unwrap();
    assert_eq!(s.next(), Step::Done);
    assert!(s.is_done());
    assert_eq!(s.into_report().len(), 1);
}

#[test]
fn full_range_scan_ends() {
    let (report, _, peak) = run(&job(0, 65535, 512, false), 1);
    assert_eq!(report.len(), 65536);
    assert_eq!(report[0].port, 0);
    assert_eq!(report[65535].port, 65535);
    assert_eq!(peak, 512);
}

#[test]
fn configuration_errors() {
    let make = |start: u16, end: u16, concurrency: usize, timeout: u64| {
        ScanJob::new("h".to_string(), start, end, true, true, concurrency, timeout, false, Some("out.txt".to_string()))
    };
    assert_eq!(make(10, 1, 4, 500).unwrap_err(), ConfigError::InvalidPortRange);
    assert_eq!(make(1, 10, 0, 500).unwrap_err(), ConfigError::ZeroConcurrency);
    assert_eq!(make(1, 10, 4, 0).unwrap_err(), ConfigError::ZeroTimeout);
    assert_eq!(make(10, 1, 0, 0).unwrap_err(), ConfigError::InvalidPortRange);
    assert_eq!(make(1, 10, 0, 0).unwrap_err(), ConfigError::ZeroConcurrency);
    let ok = make(1, 10, 4, 500).unwrap();
    assert_eq!(ok.range, PortRange { start: 1, end: 10 });
    assert_eq!(ok.concurrency, 4);
    assert_eq!(ok.timeout_ms, 500);
    assert_eq!(ok.target, "h");
    assert!(ok.is_valid());
    let mut broken = make(1, 10, 4, 500).unwrap();
    broken.timeout_ms = 0;
    assert!(!broken.is_valid());
    assert_eq!(ok.output, Some("out.txt".to_string()));
}

#[test]
fn protocols_of_a_job() {
    let make = |tcp: bool, udp: bool| ScanJob::new("h".to_string(), 1, 2, tcp, udp, 1, 1, false, None).unwrap().protocols();
    assert_eq!(make(true, true), vec![Protocol::Tcp, Protocol::Udp]);
    assert_eq!(make(true, false), vec![Protocol::Tcp]);
    assert_eq!(make(false, true), vec![Protocol::Udp]);
    assert_eq!(make(false, false), Vec::<Protocol>::new());
}

#[test]
fn concurrency_defaults_to_the_host() {
    assert_eq!(concurrency_limit(None, 8), 8);
    assert_eq!(concurrency_limit(Some(3), 8), 3);
    assert_eq!(concurrency_limit(Some(0), 8), 0);
}

#[test]
fn fresh_scheduler() {
    let s: Scheduler = job(5, 6, 3, true).scheduler(Protocol::Tcp);
    assert_eq!(s.limit, 3);
    assert_eq!(s.cursor.taken, 0);
    assert_eq!(s.cursor.range, PortRange { start: 5, end: 6 });
    assert_eq!(s.in_flight, 0);
    assert!(s.inspect);
    assert!(!s.stopped);
    assert!(!s.is_done());
}
