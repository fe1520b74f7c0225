//! What a host lookup service knows of an address, and the report made of
//! it. Asking the service is the caller's business.

use crate::text::{decimal, push_decimal, push_string, push_text, texts};
use vstd::prelude::*;
use vstd::string::*;

verus! {

/// A banner that the service saw on one port.
#[derive(Clone, Debug, PartialEq, Eq)]
pub struct ServiceBanner {
    pub port: u16,
    pub data: String,
}

/// What the service knows of a host. Every part may be missing.
#[derive(Clone, Debug, PartialEq, Eq)]
pub struct HostInfo {
    pub ip: Option<String>,
    pub org: Option<String>,
    pub os: Option<String>,
    pub city: Option<String>,
    pub region_code: Option<String>,
    pub country_name: Option<String>,
    pub isp: Option<String>,
    pub data: Option<Vec<ServiceBanner>>,
}

/// Why a lookup gave no host.
#[derive(Clone, Debug, PartialEq, Eq)]
pub enum LookupError {
    /// The service answered with an error of its own, which says this.
    Refused(String),
    /// The answer could not be read as a host.
    Unreadable,
}

/// What an answer of the service comes to. An answer that reads as an
/// error is one, whatever else it reads as; otherwise it is the host it
/// reads as, if it does.
pub fn lookup_outcome(error: Option<String>, host: Option<HostInfo>) -> (r: Result<
    HostInfo,
    LookupError,
>)
    ensures
        r == match (error, host) {
            (Some(message), _) => Err::<HostInfo, LookupError>(LookupError::Refused(message)),
            (None, Some(found)) => Ok::<HostInfo, LookupError>(found),
            (None, None) => Err::<HostInfo, LookupError>(LookupError::Unreadable),
        },
{
    match error {
        Some(message) => Err(LookupError::Refused(message)),
        None => match host {
            Some(found) => Ok(found),
            None => Err(LookupError::Unreadable),
        },
    }
}

/// The address at which the service answers for `ip`, with the caller's
/// key.
pub open spec fn lookup_url_spec(ip: Seq<char>, key: Seq<char>) -> Seq<char> {
    "https://api.shodan.io/shodan/host/"@ + ip + "?key="@ + key
}

/// The address to ask for `ip`.
pub fn lookup_url(ip: &str, key: &str) -> (url: String)
    ensures
        url@ == lookup_url_spec(ip@, key@),
{
    let mut url = String::from_str("https://api.shodan.io/shodan/host/");
    url.append(ip);
    url.append("?key=");
    url.append(key);
    url
}

/// A value, or `n/a` where it is missing.
pub open spec fn or_missing(value: Option<String>) -> Seq<char> {
    match value {
        Some(s) => s@,
        None => "n/a"@,
    }
}

/// The two entries for each banner, in order: the port, then the banner
/// under its heading.
pub open spec fn banner_entries(items: Seq<ServiceBanner>) -> Seq<Seq<char>>
    decreases items.len(),
{
    if items.len() == 0 {
        Seq::empty()
    } else {
        banner_entries(items.drop_last()) + seq![
            "  Port: "@ + decimal(items.last().port as nat),
            "  Banner:\n  "@ + items.last().data@,
        ]
    }
}

/// The report of a host: seven labelled values, then the open ports with
/// their banners, or a note that there are none to show.
pub open spec fn host_report_spec(host: HostInfo) -> Seq<Seq<char>> {
    seq![
        "IP: "@ + or_missing(host.ip),
        "Organization: "@ + or_missing(host.org),
        "Operating System: "@ + or_missing(host.os),
        "City: "@ + or_missing(host.city),
        "Region: "@ + or_missing(host.region_code),
        "Country: "@ + or_missing(host.country_name),
        "ISP: "@ + or_missing(host.isp),
        "Open Ports:"@,
    ] + match host.data {
        Some(items) => banner_entries(items@),
        None => seq!["No data available for this IP."@],
    }
}

/// A label followed by a value, or by `n/a` where the value is missing.
fn labelled(label: &str, value: &Option<String>) -> (s: String)
    ensures
        s@ == label@ + or_missing(*value),
{
    let mut s = String::from_str(label);
    match value {
        Some(v) => s.append(v.as_str()),
        None => s.append("n/a"),
    }
    s
}

/// The report of a host, entry by entry.
pub fn host_report(host: &HostInfo) -> (report: Vec<String>)
    ensures
        texts(report@) == host_report_spec(*host),
{
    let mut report: Vec<String> = Vec::new();
    push_string(&mut report, labelled("IP: ", &host.ip));
    push_string(&mut report, labelled("Organization: ", &host.org));
    push_string(&mut report, labelled("Operating System: ", &host.os));
    push_string(&mut report, labelled("City: ", &host.city));
    push_string(&mut report, labelled("Region: ", &host.region_code));
    push_string(&mut report, labelled("Country: ", &host.country_name));
    push_string(&mut report, labelled("ISP: ", &host.isp));
    push_text(&mut report, "Open Ports:");
    let ghost head = texts(report@);
    assert(head =~= host_report_spec(*host).subrange(0, 8));
    match &host.data {
        Some(items) => {
            let mut i: usize = 0;
            while i < items.len()
                invariant
                    i <= items@.len(),
                    texts(report@) == head + banner_entries(items@.subrange(0, i as int)),
                decreases items@.len() - i,
            {
                let mut port = String::from_str("  Port: ");
                push_decimal(&mut port, items[i].port);
                let mut banner = String::from_str("  Banner:\n  ");
                banner.append(items[i].data.as_str());
                push_string(&mut report, port);
                push_string(&mut report, banner);
                proof {
                    let upto = items@.subrange(0, i + 1);
                    assert(upto.drop_last() =~= items@.subrange(0, i as int));
                    assert(upto.last() == items@[i as int]);
                    assert(texts(report@) =~= head + banner_entries(upto));
                }
                i = i + 1;
            }
            assert(items@.subrange(0, i as int) =~= items@);
            assert(texts(report@) =~= host_report_spec(*host));
        },
        None => {
            push_text(&mut report, "No data available for this IP.");
            assert(texts(report@) =~= host_report_spec(*host));
        },
    }
    report
}

} // verus!
