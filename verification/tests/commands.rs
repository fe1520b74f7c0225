use neteye::commands::{nmap_arguments, ping_arguments};
use neteye::dispatch::{routine_for, Routine};
use neteye::hostinfo::{
    host_report, lookup_outcome, lookup_url, HostInfo, LookupError, ServiceBanner,
};
use neteye::ports::Protocol;

fn strings(items: &[&str]) -> Vec<String> {
    items.iter().map(|s| s.to_string()).collect()
}

#[test]
fn ping_counts_once() {
    assert_eq!(ping_arguments("10.0.0.1", false), strings(&["-c", "1", "10.0.0.1"]));
    assert_eq!(ping_arguments("10.0.0.1", true), strings(&["-n", "1", "10.0.0.1"]));
}

#[test]
fn nmap_tcp_with_ports() {
    assert_eq!(
        nmap_arguments(Protocol::Tcp, "127.0.0.1", "1-1024", false, None),
        strings(&["-vv", "--reason", "-sV", "-sC", "-p", "1-1024", "127.0.0.1"])
    );
}

#[test]
fn nmap_tcp_deep_with_output() {
    assert_eq!(
        nmap_arguments(Protocol::Tcp, "127.0.0.1", "80", true, Some("out")),
        strings(&[
            "-vv",
            "--reason",
            "-sV",
            "-sC",
            "-p-",
            "-oN",
            "out/0_tcp_nmap.txt",
            "-oX",
            "out/0_tcp_nmap.xml",
            "127.0.0.1",
        ])
    );
}

#[test]
fn nmap_udp_with_output() {
    assert_eq!(
        nmap_arguments(Protocol::Udp, "::1", "53,161", false, Some("/tmp/scan")),
        strings(&[
            "-vv",
            "--reason",
            "-sV",
            "--version-intensity",
            "0",
            "-sC",
            "-sU",
            "-p",
            "53,161",
            "-oN",
            "/tmp/scan/0_udp_nmap.txt",
            "-oX",
            "/tmp/scan/0_udp_nmap.xml",
            "::1",
        ])
    );
}

#[test]
fn nmap_udp_deep() {
    assert_eq!(
        nmap_arguments(Protocol::Udp, "h", "", true, None),
        strings(&["-vv", "--reason", "-sV", "--version-intensity", "0", "-sC", "-sU", "-p-", "h"])
    );
}

#[test]
fn lookup_address() {
    assert_eq!(lookup_url("8.8.8.8", "KEY"), "https://api.shodan.io/shodan/host/8.8.8.8?key=KEY");
    assert_eq!(lookup_url("", ""), "https://api.shodan.io/shodan/host/?key=");
}

#[test]
fn report_of_a_known_host() {
    let host = HostInfo {
        ip: Some("8.8.8.8".to_string()),
        org: Some("Google".to_string()),
        os: None,
        city: Some("Mountain View".to_string()),
        region_code: Some("CA".to_string()),
        country_name: Some("United States".to_string()),
        isp: Some("Google LLC".to_string()),
        data: Some(vec![
            ServiceBanner { port: 53, data: "dns".to_string() },
            ServiceBanner { port: 443, data: "HTTP/1.1 200 OK\nServer: gws".to_string() },
        ]),
    };
    assert_eq!(
        host_report(&host),
        strings(&[
            "IP: 8.8.8.8",
            "Organization: Google",
            "Operating System: n/a",
            "City: Mountain View",
            "Region: CA",
            "Country: United States",
            "ISP: Google LLC",
            "Open Ports:",
            "  Port: 53",
            "  Banner:\n  dns",
            "  Port: 443",
            "  Banner:\n  HTTP/1.1 200 OK\nServer: gws",
        ])
    );
}

#[test]
fn report_of_an_unknown_host() {
    let host = HostInfo {
        ip: None,
        org: None,
        os: None,
        city: None,
        region_code: None,
        country_name: None,
        isp: None,
        data: None,
    };
    assert_eq!(
        host_report(&host),
        strings(&[
            "IP: n/a",
            "Organization: n/a",
            "Operating System: n/a",
            "City: n/a",
            "Region: n/a",
            "Country: n/a",
            "ISP: n/a",
            "Open Ports:",
            "No data available for this IP.",
        ])
    );
}

#[test]
fn report_of_a_host_without_banners() {
    let host = HostInfo {
        ip: Some("1.2.3.4".to_string()),
        org: None,
        os: None,
        city: None,
        region_code: None,
        country_name: None,
        isp: None,
        data: Some(vec![]),
    };
    let report = host_report(&host);
    assert_eq!(report.len(), 8);
    assert_eq!(report[0], "IP: 1.2.3.4");
    assert_eq!(report[7], "Open Ports:");
}

#[test]
fn services_find_their_routines() {
    assert_eq!(routine_for("http"), Some(Routine::Http));
    assert_eq!(routine_for("https"), Some(Routine::Http));
    assert_eq!(routine_for("ssl/http-alt"), Some(Routine::Http));
    assert_eq!(routine_for("smtp"), Some(Routine::Smtp));
    assert_eq!(routine_for("ftp"), Some(Routine::Ftp));
    assert_eq!(routine_for("tftp"), Some(Routine::Ftp));
    assert_eq!(routine_for("SMB"), Some(Routine::Smb));
    assert_eq!(routine_for("snmp"), Some(Routine::Snmp));
    assert_eq!(routine_for("ssh"), None);
    assert_eq!(routine_for("unknown"), None);
    assert_eq!(routine_for(""), None);
}

#[test]
fn earlier_routine_wins() {
    assert_eq!(routine_for("snmp-over-http"), Some(Routine::Http));
    assert_eq!(routine_for("ftp+smtp"), Some(Routine::Smtp));
    assert_eq!(routine_for("smb ftp"), Some(Routine::Ftp));
    assert_eq!(routine_for("snmp smb"), Some(Routine::Smb));
    assert_eq!(Routine::Smb.name(), "smb");
    assert_eq!(Routine::Http.name(), "http");
}

fn bare_host(ip: &str) -> HostInfo {
    HostInfo {
        ip: Some(ip.to_string()),
        org: None,
        os: None,
        city: None,
        region_code: None,
        country_name: None,
        isp: None,
        data: None,
    }
}

#[test]
fn lookup_answers() {
    let host = bare_host("1.1.1.1");
    assert_eq!(lookup_outcome(None, Some(host.clone())), Ok(host.clone()));
    assert_eq!(
        lookup_outcome(Some("No information available".to_string()), Some(host)),
        Err(LookupError::Refused("No information available".to_string()))
    );
    assert_eq!(
        lookup_outcome(Some("Invalid API key".to_string()), None),
        Err(LookupError::Refused("Invalid API key".to_string()))
    );
    assert_eq!(lookup_outcome(None, None), Err(LookupError::Unreadable));
}
