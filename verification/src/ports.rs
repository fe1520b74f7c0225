//! Protocols, port specifications and inclusive port ranges.

use crate::text::{decimal, push_decimal, same_chars, to_chars};
use vstd::prelude::*;
use vstd::string::*;

verus! {

/// The transport protocol of a probe.
#[derive(Clone, Copy, Debug, PartialEq, Eq, Structural)]
pub enum Protocol {
    Tcp,
    Udp,
}

impl Protocol {
    /// The lower-case tag written in result lines.
    pub open spec fn tag(self) -> Seq<char> {
        match self {
            Protocol::Tcp => "tcp"@,
            Protocol::Udp => "udp"@,
        }
    }

    /// The protocol's tag.
    pub fn name(self) -> (s: &'static str)
        ensures
            s@ == self.tag(),
    {
        match self {
            Protocol::Tcp => "tcp",
            Protocol::Udp => "udp",
        }
    }

    /// The protocol that a tag names: `tcp` or `udp`, in small letters.
    pub open spec fn named(tag: Seq<char>) -> Option<Protocol> {
        if tag == "tcp"@ {
            Some(Protocol::Tcp)
        } else if tag == "udp"@ {
            Some(Protocol::Udp)
        } else {
            None
        }
    }

    /// Reads a protocol from its tag.
    pub fn parse(tag: &str) -> (r: Option<Protocol>)
        ensures
            r == Protocol::named(tag@),
    {
        let given = to_chars(tag);
        let tcp = to_chars("tcp");
        let udp = to_chars("udp");
        if same_chars(given.as_slice(), tcp.as_slice()) {
            Some(Protocol::Tcp)
        } else if same_chars(given.as_slice(), udp.as_slice()) {
            Some(Protocol::Udp)
        } else {
            None
        }
    }
}

/// One thing to probe: a port under a protocol.
#[derive(Clone, Copy, Debug, PartialEq, Eq, Structural)]
pub struct PortSpec {
    pub port: u16,
    pub protocol: Protocol,
}

impl PortSpec {
    /// The address of the port on a host: the host, a colon, the port.
    pub open spec fn endpoint_spec(self, target: Seq<char>) -> Seq<char> {
        target + ":"@ + decimal(self.port as nat)
    }

    /// The address of the port on `target`.
    pub fn endpoint(&self, target: &str) -> (s: String)
        ensures
            s@ == self.endpoint_spec(target@),
    {
        let mut s = String::from_str(target);
        s.append(":");
        push_decimal(&mut s, self.port);
        s
    }
}

/// Why a scan configuration was rejected.
#[derive(Clone, Copy, Debug, PartialEq, Eq, Structural)]
pub enum ConfigError {
    /// The first port lies above the last one.
    InvalidPortRange,
    /// The concurrency limit is zero.
    ZeroConcurrency,
    /// The per-probe timeout is zero.
    ZeroTimeout,
}

/// An inclusive range of ports, `start..=end`.
#[derive(Clone, Copy, Debug, PartialEq, Eq, Structural)]
pub struct PortRange {
    pub start: u16,
    pub end: u16,
}

/// The ports `start, start + 1, ..., end` in ascending order.
pub open spec fn port_seq(start: int, end: int) -> Seq<int> {
    Seq::new((end - start + 1) as nat, |i: int| start + i)
}

impl PortRange {
    /// The bounds are in order.
    pub open spec fn wf(self) -> bool {
        self.start <= self.end
    }

    /// How many ports the range holds.
    pub open spec fn count(self) -> int {
        self.end - self.start + 1
    }

    /// The ports of the range as mathematical integers.
    pub open spec fn ports_spec(self) -> Seq<int> {
        port_seq(self.start as int, self.end as int)
    }

    /// The port specifications of the range under one protocol.
    pub open spec fn specs_spec(self, protocol: Protocol) -> Seq<PortSpec> {
        Seq::new(
            self.count() as nat,
            |i: int| (PortSpec { port: (self.start + i) as u16, protocol }),
        )
    }

    /// The range as tools take it on their command lines: the bounds with
    /// a hyphen between them.
    pub open spec fn span_spec(self) -> Seq<char> {
        decimal(self.start as nat) + "-"@ + decimal(self.end as nat)
    }

    /// The range written as `start-end`.
    pub fn span(&self) -> (s: String)
        ensures
            s@ == self.span_spec(),
    {
        let mut s = String::new();
        push_decimal(&mut s, self.start);
        s.append("-");
        push_decimal(&mut s, self.end);
        assert(s@ =~= self.span_spec());
        s
    }

    /// Builds the range, rejecting one whose bounds are out of order.
    pub fn new(start: u16, end: u16) -> (r: Result<PortRange, ConfigError>)
        ensures
            start <= end ==> r == Ok::<PortRange, ConfigError>(PortRange { start, end }),
            start > end ==> r == Err::<PortRange, ConfigError>(ConfigError::InvalidPortRange),
            r is Ok ==> r->Ok_0.wf(),
    {
        if start <= end {
            Ok(PortRange { start, end })
        } else {
            Err(ConfigError::InvalidPortRange)
        }
    }

    /// The number of ports in the range.
    pub fn len(&self) -> (n: u32)
        requires
            self.wf(),
        ensures
            n == self.count(),
            n >= 1,
    {
        let span: u32 = (self.end - self.start) as u32;
        span + 1
    }

    /// Whether `port` lies in the range.
    pub fn contains(&self, port: u16) -> (b: bool)
        ensures
            b == (self.start <= port <= self.end),
    {
        self.start <= port && port <= self.end
    }

    /// The `index`-th port of the range, if there is one.
    pub fn nth(&self, index: u32) -> (r: Option<u16>)
        requires
            self.wf(),
        ensures
            index < self.count() ==> r == Some((self.start + index) as u16),
            index >= self.count() ==> r is None,
    {
        let span: u32 = (self.end - self.start) as u32;
        if index <= span {
            let port: u32 = self.start as u32 + index;
            Some(port as u16)
        } else {
            None
        }
    }

    /// Every port of the range, ascending.
    pub fn ports(&self) -> (v: Vec<u16>)
        requires
            self.wf(),
        ensures
            v@.map_values(|p: u16| p as int) == self.ports_spec(),
            v@.len() == self.count(),
            forall|i: int| 0 <= i < v@.len() ==> v@[i] == self.start + i,
    {
        let mut v: Vec<u16> = Vec::new();
        let mut port: u16 = self.start;
        v.push(port);
        while port < self.end
            invariant
                self.wf(),
                self.start <= port <= self.end,
                v@.len() == port - self.start + 1,
                forall|i: int| 0 <= i < v@.len() ==> v@[i] == self.start + i,
            decreases self.end - port,
        {
            port = port + 1;
            v.push(port);
        }
        assert(v@.map_values(|p: u16| p as int) =~= self.ports_spec());
        v
    }

    /// Every port of the range under `protocol`, ascending.
    pub fn specs(&self, protocol: Protocol) -> (v: Vec<PortSpec>)
        requires
            self.wf(),
        ensures
            v@ == self.specs_spec(protocol),
    {
        let mut v: Vec<PortSpec> = Vec::new();
        let mut port: u16 = self.start;
        v.push(PortSpec { port, protocol });
        while port < self.end
            invariant
                self.wf(),
                self.start <= port <= self.end,
                v@.len() == port - self.start + 1,
                forall|i: int|
                    0 <= i < v@.len() ==> v@[i] == (PortSpec {
                        port: (self.start + i) as u16,
                        protocol,
                    }),
            decreases self.end - port,
        {
            port = port + 1;
            v.push(PortSpec { port, protocol });
        }
        assert(v@ =~= self.specs_spec(protocol));
        v
    }
}

/// Walks the ports of a range under one protocol, lowest first, one port
/// per call. It can be set back to the start at any time.
#[derive(Clone, Copy, Debug, PartialEq, Eq, Structural)]
pub struct PortCursor {
    pub range: PortRange,
    pub protocol: Protocol,
    /// How many ports have been handed out.
    pub taken: u32,
}

impl PortCursor {
    /// The range is in order and no more ports are taken than it holds.
    pub open spec fn wf(self) -> bool {
        self.range.wf() && self.taken <= self.range.count()
    }

    /// What is still to come, in order.
    pub open spec fn remaining(self) -> Seq<PortSpec> {
        self.range.specs_spec(self.protocol).subrange(self.taken as int, self.range.count())
    }

    /// A cursor at the start of `range`.
    pub fn new(range: PortRange, protocol: Protocol) -> (cursor: PortCursor)
        requires
            range.wf(),
        ensures
            cursor == (PortCursor { range, protocol, taken: 0 }),
            cursor.wf(),
            cursor.remaining() == range.specs_spec(protocol),
    {
        let cursor = PortCursor { range, protocol, taken: 0 };
        assert(cursor.remaining() =~= range.specs_spec(protocol));
        cursor
    }

    /// Whether every port has been handed out.
    pub fn is_exhausted(&self) -> (done: bool)
        requires
            self.wf(),
        ensures
            done == (self.taken == self.range.count()),
            done == (self.remaining().len() == 0),
    {
        self.taken == self.range.len()
    }

    /// Hands out the next port, if one is left.
    pub fn next(&mut self) -> (r: Option<PortSpec>)
        requires
            old(self).wf(),
        ensures
            final(self).wf(),
            final(self).range == old(self).range,
            final(self).protocol == old(self).protocol,
            old(self).taken < old(self).range.count() ==> r == Some(
                PortSpec {
                    port: (old(self).range.start + old(self).taken) as u16,
                    protocol: old(self).protocol,
                },
            ) && final(self).taken == old(self).taken + 1 && r == Some(old(self).remaining()[0])
                && final(self).remaining() == old(self).remaining().drop_first(),
            old(self).taken == old(self).range.count() ==> r is None && *final(self) == *old(
                self,
            ),
    {
        match self.range.nth(self.taken) {
            Some(port) => {
                self.taken = self.taken + 1;
                assert(self.remaining() =~= old(self).remaining().drop_first());
                Some(PortSpec { port, protocol: self.protocol })
            },
            None => None,
        }
    }

    /// Sets the cursor back to the first port.
    pub fn restart(&mut self)
        requires
            old(self).wf(),
        ensures
            *final(self) == (PortCursor { taken: 0, ..*old(self) }),
            final(self).wf(),
            final(self).remaining() == old(self).range.specs_spec(old(self).protocol),
    {
        self.taken = 0;
        assert(self.remaining() =~= self.range.specs_spec(self.protocol));
    }
}

/// A range with ordered bounds yields exactly `end - start + 1` ports, each
/// one above the one before, and all of them between the bounds.
pub proof fn lemma_port_sequence(start: int, end: int)
    requires
        start <= end,
    ensures
        port_seq(start, end).len() == end - start + 1,
        forall|i: int, j: int|
            0 <= i < j < port_seq(start, end).len() ==> port_seq(start, end)[i] < port_seq(
                start,
                end,
            )[j],
        forall|i: int|
            0 <= i < port_seq(start, end).len() ==> start <= #[trigger] port_seq(start, end)[i]
                <= end,
{
}

} // verus!
