//! What one probe found: the observation that the network gave, and the
//! outcome record made of it.

use crate::classify::{classification, classify, lemma_classification_single_line, utf8_lossy};
use crate::ports::{PortSpec, Protocol};
use crate::text::single_line;
use vstd::prelude::*;
use vstd::string::*;

verus! {

/// How many bytes of a response are kept and classified.
pub const BANNER_CAPACITY: usize = 1024;

/// What the network showed for one probe.
#[derive(Clone, Debug, PartialEq, Eq)]
pub enum Observation {
    /// No connection came about, or the probe failed in some other way.
    Unreachable,
    /// The peer was reached and nothing could be read from it before the
    /// deadline. For UDP: no reply came.
    Silent,
    /// The peer answered with these bytes.
    Response(Vec<u8>),
}

/// The result of one probe.
#[derive(Clone, Debug, PartialEq, Eq)]
pub struct ProbeOutcome {
    pub target: String,
    pub port: u16,
    pub protocol: Protocol,
    pub open: bool,
    pub service: Option<String>,
    pub version: Option<String>,
    pub raw_sample: Option<Vec<u8>>,
    pub latency_ms: u64,
}

/// A probe outcome as plain mathematical data.
pub struct OutcomeView {
    pub target: Seq<char>,
    pub port: u16,
    pub protocol: Protocol,
    pub open: bool,
    pub service: Option<Seq<char>>,
    pub version: Option<Seq<char>>,
    pub raw_sample: Option<Seq<u8>>,
    pub latency_ms: u64,
}

impl OutcomeView {
    /// A closed port carries no service, version or sample. An open one
    /// carries a service and a version, each on one line, and at most
    /// `BANNER_CAPACITY` bytes of sample.
    pub open spec fn wf(self) -> bool {
        if self.open {
            &&& self.service is Some
            &&& self.version is Some
            &&& single_line(self.service->0)
            &&& single_line(self.version->0)
            &&& self.raw_sample is Some ==> self.raw_sample->0.len() <= BANNER_CAPACITY
        } else {
            &&& self.service is None
            &&& self.version is None
            &&& self.raw_sample is None
        }
    }
}

impl View for ProbeOutcome {
    type V = OutcomeView;

    open spec fn view(&self) -> OutcomeView {
        OutcomeView {
            target: self.target@,
            port: self.port,
            protocol: self.protocol,
            open: self.open,
            service: match self.service {
                Some(s) => Some(s@),
                None => None,
            },
            version: match self.version {
                Some(s) => Some(s@),
                None => None,
            },
            raw_sample: match self.raw_sample {
                Some(b) => Some(b@),
                None => None,
            },
            latency_ms: self.latency_ms,
        }
    }
}

/// The part of a response that is kept: its first `BANNER_CAPACITY` bytes.
pub open spec fn sample_of(bytes: Seq<u8>) -> Seq<u8> {
    if bytes.len() <= BANNER_CAPACITY {
        bytes
    } else {
        bytes.subrange(0, BANNER_CAPACITY as int)
    }
}

/// Whether an observation shows the port open. A TCP peer that was reached
/// counts as open even if it said nothing; a UDP port counts as open only
/// where a reply came, so a service that stays silent is reported closed.
pub open spec fn shows_open(protocol: Protocol, observed: Observation) -> bool {
    match observed {
        Observation::Unreachable => false,
        Observation::Silent => protocol == Protocol::Tcp,
        Observation::Response(_) => true,
    }
}

/// The outcome that stands for an observation. An open port that gave no
/// bytes has service and version `unknown`; one that gave bytes is
/// classified by the part of them that is kept.
pub open spec fn outcome_of(
    target: Seq<char>,
    spec: PortSpec,
    observed: Observation,
    latency_ms: u64,
) -> OutcomeView {
    if !shows_open(spec.protocol, observed) {
        OutcomeView {
            target,
            port: spec.port,
            protocol: spec.protocol,
            open: false,
            service: None,
            version: None,
            raw_sample: None,
            latency_ms,
        }
    } else if observed is Response && observed->Response_0@.len() > 0 {
        let sample = sample_of(observed->Response_0@);
        let class = classification(utf8_lossy(sample));
        OutcomeView {
            target,
            port: spec.port,
            protocol: spec.protocol,
            open: true,
            service: Some(class.0.label()),
            version: Some(class.1),
            raw_sample: Some(sample),
            latency_ms,
        }
    } else {
        OutcomeView {
            target,
            port: spec.port,
            protocol: spec.protocol,
            open: true,
            service: Some("unknown"@),
            version: Some("unknown"@),
            raw_sample: None,
            latency_ms,
        }
    }
}

/// The bytes that a probe sends: a bare HTTP request over TCP, a single
/// line feed over UDP.
pub open spec fn payload_text(protocol: Protocol) -> Seq<char> {
    match protocol {
        Protocol::Tcp => "HEAD / HTTP/1.0\r\n\r\n"@,
        Protocol::Udp => "\n"@,
    }
}

/// What to send to a port to make it answer.
pub fn probe_payload(protocol: Protocol) -> (s: &'static str)
    ensures
        s@ == payload_text(protocol),
{
    match protocol {
        Protocol::Tcp => "HEAD / HTTP/1.0\r\n\r\n",
        Protocol::Udp => "\n",
    }
}

/// A TCP peer that was reached is reported open whatever it said, and
/// with service and version `unknown` where it said nothing; a port that
/// was not reached is reported closed.
pub proof fn lemma_reached_is_open(
    target: Seq<char>,
    port: u16,
    observed: Observation,
    latency_ms: u64,
)
    ensures
        ({
            let o = outcome_of(
                target,
                PortSpec { port, protocol: Protocol::Tcp },
                observed,
                latency_ms,
            );
            &&& o.open == !(observed is Unreachable)
            &&& observed is Silent ==> o.service == Some("unknown"@) && o.version == Some(
                "unknown"@,
            )
            &&& o.port == port
        }),
{
}

impl ProbeOutcome {
    /// The outcome is well-formed as its view says.
    pub open spec fn wf(&self) -> bool {
        self@.wf()
    }

    /// The outcome for a port that did not answer.
    pub fn closed(target: String, spec: PortSpec, latency_ms: u64) -> (o: ProbeOutcome)
        ensures
            o@ == outcome_of(target@, spec, Observation::Unreachable, latency_ms),
            o.wf(),
    {
        ProbeOutcome {
            target,
            port: spec.port,
            protocol: spec.protocol,
            open: false,
            service: None,
            version: None,
            raw_sample: None,
            latency_ms,
        }
    }

    /// The outcome for what a probe observed.
    pub fn from_observation(
        target: String,
        spec: PortSpec,
        observed: Observation,
        latency_ms: u64,
    ) -> (o: ProbeOutcome)
        ensures
            o@ == outcome_of(target@, spec, observed, latency_ms),
            o.wf(),
    {
        match observed {
            Observation::Unreachable => ProbeOutcome::closed(target, spec, latency_ms),
            Observation::Silent => {
                match spec.protocol {
                    Protocol::Tcp => ProbeOutcome::unread(target, spec, latency_ms),
                    Protocol::Udp => ProbeOutcome::closed(target, spec, latency_ms),
                }
            },
            Observation::Response(bytes) => {
                if bytes.len() == 0 {
                    ProbeOutcome::unread(target, spec, latency_ms)
                } else {
                    let ghost given = bytes@;
                    let mut sample = bytes;
                    sample.truncate(BANNER_CAPACITY);
                    let (service, version) = classify(sample.as_slice());
                    proof {
                        assert(sample@ =~= sample_of(given));
                        lemma_classification_single_line(utf8_lossy(sample@));
                    }
                    ProbeOutcome {
                        target,
                        port: spec.port,
                        protocol: spec.protocol,
                        open: true,
                        service: Some(service),
                        version: Some(version),
                        raw_sample: Some(sample),
                        latency_ms,
                    }
                }
            },
        }
    }

    /// The outcome for an open port of which nothing could be read.
    fn unread(target: String, spec: PortSpec, latency_ms: u64) -> (o: ProbeOutcome)
        ensures
            o@ == (OutcomeView {
                target: target@,
                port: spec.port,
                protocol: spec.protocol,
                open: true,
                service: Some("unknown"@),
                version: Some("unknown"@),
                raw_sample: None,
                latency_ms,
            }),
            o.wf(),
    {
        proof {
            reveal_strlit("unknown");
        }
        ProbeOutcome {
            target,
            port: spec.port,
            protocol: spec.protocol,
            open: true,
            service: Some(String::from_str("unknown")),
            version: Some(String::from_str("unknown")),
            raw_sample: None,
            latency_ms,
        }
    }
}

} // verus!
