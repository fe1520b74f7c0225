use neteye::outcome::{Observation, ProbeOutcome};
use neteye::ports::{PortSpec, Protocol};
use neteye::report::{protocol_eq, result_line, ResultSink, ScanReport};

fn open_tcp(port: u16, banner: &[u8]) -> ProbeOutcome {
    ProbeOutcome::from_observation(
        "127.0.0.1".to_string(),
        PortSpec { port, protocol: Protocol::Tcp },
        Observation::Response(banner.to_vec()),
        1,
    )
}

fn closed_tcp(port: u16) -> ProbeOutcome {
    ProbeOutcome::closed("127.0.0.1".to_string(), PortSpec { port, protocol: Protocol::Tcp }, 1)
}

#[test]
fn line_of_open_port() {
    let o = open_tcp(22, b"SSH-2.0-OpenSSH_8.9\r\n");
    assert_eq!(result_line(&o), Some("22/tcp   open   ssh   SSH-2.0-OpenSSH_8.9".to_string()));
}

#[test]
fn line_of_open_udp_port() {
    let o = ProbeOutcome::from_observation(
        "h".to_string(),
        PortSpec { port: 53, protocol: Protocol::Udp },
        Observation::Response(b"DNS".to_vec()),
        1,
    );
    assert_eq!(result_line(&o), Some("53/udp   open   dns   DNS".to_string()));
}

#[test]
fn line_of_unread_port() {
    let o = ProbeOutcome::from_observation(
        "h".to_string(),
        PortSpec { port: 65535, protocol: Protocol::Tcp },
        Observation::Silent,
        1,
    );
    assert_eq!(result_line(&o), Some("65535/tcp   open   unknown   unknown".to_string()));
}

#[test]
fn closed_port_has_no_line() {
    assert_eq!(result_line(&closed_tcp(22)), None);
}

#[test]
fn sink_records_open_ports_only() {
    let mut sink = ResultSink::new();
    assert_eq!(sink.len(), 0);
    assert_eq!(sink.record(&closed_tcp(1)), None);
    assert_eq!(sink.len(), 0);
    let line = sink.record(&open_tcp(80, b"HTTP/1.1 200 OK\r\nServer: x\r\n"));
    assert_eq!(line, Some("80/tcp   open   http   Server: x".to_string()));
    assert_eq!(sink.len(), 1);
    sink.note("COMMAND PID USER");
    assert_eq!(sink.len(), 2);
    assert_eq!(sink.finalize(), "80/tcp   open   http   Server: x\nCOMMAND PID USER\n");
}

#[test]
fn empty_sink_writes_nothing() {
    assert_eq!(ResultSink::new().finalize(), "");
}

#[test]
fn sink_keeps_one_line_per_record() {
    let mut sink = ResultSink::new();
    let count: usize = 1000;
    for i in 0..count {
        let port = (i + 1) as u16;
        let banner = format!("SSH-2.0-host{}\r\ntrailing\nlines\n", i);
        let line = sink.record(&open_tcp(port, banner.as_bytes()));
        assert_eq!(line, Some(format!("{}/tcp   open   ssh   SSH-2.0-host{}", port, i)));
    }
    assert_eq!(sink.len(), count);
    let text = sink.finalize();
    assert!(text.ends_with('\n'));
    let lines: Vec<&str> = text.lines().collect();
    assert_eq!(lines.len(), count);
    assert_eq!(text.matches('\n').count(), count);
    for (i, line) in lines.iter().enumerate() {
        assert_eq!(*line, format!("{}/tcp   open   ssh   SSH-2.0-host{}", i + 1, i));
    }
}

#[test]
fn report_orders_by_port() {
    let mut report = ScanReport::new(Protocol::Tcp);
    assert_eq!(report.insert(closed_tcp(30)), Some(0));
    assert_eq!(report.insert(closed_tcp(10)), Some(0));
    assert_eq!(report.insert(open_tcp(20, b"SSH")), Some(1));
    assert_eq!(report.insert(closed_tcp(40)), Some(3));
    assert_eq!(report.len(), 4);
    let ports: Vec<u16> = report.entries.iter().map(|o| o.port).collect();
    assert_eq!(ports, vec![10, 20, 30, 40]);
    assert_eq!(report.open_ports(), vec![20]);
    assert_eq!(report.position(20), (1, true));
    assert_eq!(report.position(25), (2, false));
    assert_eq!(report.position(50), (4, false));
    assert_eq!(report.position(5), (0, false));
}

#[test]
fn report_refuses_duplicates_and_other_protocols() {
    let mut report = ScanReport::new(Protocol::Tcp);
    assert_eq!(report.insert(closed_tcp(10)), Some(0));
    assert_eq!(report.insert(open_tcp(10, b"SSH")), None);
    let other = ProbeOutcome::closed("h".to_string(), PortSpec { port: 11, protocol: Protocol::Udp }, 1);
    assert_eq!(report.insert(other), None);
    assert_eq!(report.len(), 1);
    assert_eq!(report.entries[0], closed_tcp(10));
}

#[test]
fn report_is_the_same_in_any_order() {
    let outcomes = vec![closed_tcp(3), open_tcp(1, b"FTP"), closed_tcp(2), open_tcp(5, b"x"), closed_tcp(4)];
    let mut forward = ScanReport::new(Protocol::Tcp);
    for o in outcomes.iter() {
        forward.insert(o.clone());
    }
    let mut backward = ScanReport::new(Protocol::Tcp);
    for o in outcomes.iter().rev() {
        backward.insert(o.clone());
    }
    assert_eq!(forward.entries, backward.entries);
    assert_eq!(forward.open_ports(), vec![1, 5]);
}

#[test]
fn protocols_compare() {
    assert!(protocol_eq(Protocol::Tcp, Protocol::Tcp));
    assert!(protocol_eq(Protocol::Udp, Protocol::Udp));
    assert!(!protocol_eq(Protocol::Tcp, Protocol::Udp));
    assert!(!protocol_eq(Protocol::Udp, Protocol::Tcp));
}
