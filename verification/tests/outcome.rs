use neteye::inspect::{connection_filter, socket_selector};
use neteye::outcome::{probe_payload, Observation, ProbeOutcome, BANNER_CAPACITY};
use neteye::ports::{PortSpec, Protocol};

fn tcp(port: u16) -> PortSpec {
    PortSpec { port, protocol: Protocol::Tcp }
}

fn udp(port: u16) -> PortSpec {
    PortSpec { port, protocol: Protocol::Udp }
}

#[test]
fn unreachable_is_closed() {
    let o = ProbeOutcome::from_observation("127.0.0.1".to_string(), tcp(81), Observation::Unreachable, 500);
    assert_eq!(
        o,
        ProbeOutcome {
            target: "127.0.0.1".to_string(),
            port: 81,
            protocol: Protocol::Tcp,
            open: false,
            service: None,
            version: None,
            raw_sample: None,
            latency_ms: 500,
        }
    );
    assert_eq!(o, ProbeOutcome::closed("127.0.0.1".to_string(), tcp(81), 500));
}

#[test]
fn silent_tcp_peer_is_open_unknown() {
    let o = ProbeOutcome::from_observation("h".to_string(), tcp(22), Observation::Silent, 7);
    assert!(o.open);
    assert_eq!(o.service, Some("unknown".to_string()));
    assert_eq!(o.version, Some("unknown".to_string()));
    assert_eq!(o.raw_sample, None);
    assert_eq!(o.latency_ms, 7);
}

#[test]
fn empty_response_is_open_unknown() {
    let o = ProbeOutcome::from_observation("h".to_string(), tcp(22), Observation::Response(vec![]), 7);
    assert!(o.open);
    assert_eq!(o.service, Some("unknown".to_string()));
    assert_eq!(o.version, Some("unknown".to_string()));
    assert_eq!(o.raw_sample, None);
}

#[test]
fn silent_udp_port_is_closed() {
    let o = ProbeOutcome::from_observation("h".to_string(), udp(53), Observation::Silent, 3000);
    assert!(!o.open);
    assert_eq!(o.service, None);
    assert_eq!(o.version, None);
    assert_eq!(o.raw_sample, None);
    assert_eq!(o.protocol, Protocol::Udp);
}

#[test]
fn udp_reply_is_open() {
    let o = ProbeOutcome::from_observation("h".to_string(), udp(53), Observation::Response(b"DNS reply".to_vec()), 12);
    assert!(o.open);
    assert_eq!(o.service, Some("dns".to_string()));
    assert_eq!(o.version, Some("DNS reply".to_string()));
}

#[test]
fn ssh_listener_on_port_9000() {
    let banner = b"SSH-2.0-OpenSSH_8.9\r\n".to_vec();
    let o = ProbeOutcome::from_observation("127.0.0.1".to_string(), tcp(9000), Observation::Response(banner.clone()), 4);
    assert!(o.open);
    assert_eq!(o.port, 9000);
    assert_eq!(o.service, Some("ssh".to_string()));
    assert!(o.version.clone().unwrap().contains("OpenSSH_8.9"));
    assert_eq!(o.version, Some("SSH-2.0-OpenSSH_8.9".to_string()));
    assert_eq!(o.raw_sample, Some(banner));
}

#[test]
fn http_listener_with_server_header() {
    let banner = b"HTTP/1.1 200 OK\r\nServer: lighttpd\r\n\r\n".to_vec();
    let o = ProbeOutcome::from_observation("h".to_string(), tcp(80), Observation::Response(banner), 4);
    assert_eq!(o.service, Some("http".to_string()));
    assert_eq!(o.version, Some("Server: lighttpd".to_string()));
}

#[test]
fn long_response_is_cut_to_capacity() {
    assert_eq!(BANNER_CAPACITY, 1024);
    let mut bytes = vec![b'a'; 1024];
    bytes.extend_from_slice(b"SSH");
    let o = ProbeOutcome::from_observation("h".to_string(), tcp(1), Observation::Response(bytes), 1);
    assert!(o.open);
    assert_eq!(o.raw_sample, Some(vec![b'a'; 1024]));
    assert_eq!(o.service, Some("unknown".to_string()));
    assert_eq!(o.version.unwrap().len(), 1024);
    let mut fits = vec![b'a'; 1021];
    fits.extend_from_slice(b"SSH");
    let o = ProbeOutcome::from_observation("h".to_string(), tcp(1), Observation::Response(fits.clone()), 1);
    assert_eq!(o.raw_sample, Some(fits));
    assert_eq!(o.service, Some("ssh".to_string()));
}

#[test]
fn probe_payloads() {
    assert_eq!(probe_payload(Protocol::Tcp), "HEAD / HTTP/1.0\r\n\r\n");
    assert_eq!(probe_payload(Protocol::Udp), "\n");
    assert_eq!(probe_payload(Protocol::Udp).len(), 1);
}

#[test]
fn inspection_queries() {
    assert_eq!(socket_selector(tcp(8080)), "-i:tcp:8080");
    assert_eq!(socket_selector(udp(53)), "-i:udp:53");
    assert_eq!(connection_filter(445), "netstat -ano | findstr :445");
}
