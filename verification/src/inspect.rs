//! What to ask the host's socket tables about an open port. Running the
//! query is the caller's business; this says what to ask.

use crate::ports::PortSpec;
use crate::text::{decimal, push_decimal};
use vstd::prelude::*;
use vstd::string::*;

verus! {

/// The selector that makes `lsof` list the sockets of a port: `-i:`, the
/// protocol, a colon, the port.
pub open spec fn socket_selector_spec(spec: PortSpec) -> Seq<char> {
    "-i:"@ + spec.protocol.tag() + ":"@ + decimal(spec.port as nat)
}

/// The `lsof` selector for a port.
pub fn socket_selector(spec: PortSpec) -> (s: String)
    ensures
        s@ == socket_selector_spec(spec),
{
    let mut s = String::from_str("-i:");
    s.append(spec.protocol.name());
    s.append(":");
    push_decimal(&mut s, spec.port);
    s
}

/// The command line that lists a port's connections where `netstat` and
/// `findstr` do the work.
pub open spec fn connection_filter_spec(port: u16) -> Seq<char> {
    "netstat -ano | findstr :"@ + decimal(port as nat)
}

/// The `netstat` command line for a port.
pub fn connection_filter(port: u16) -> (s: String)
    ensures
        s@ == connection_filter_spec(port),
{
    let mut s = String::from_str("netstat -ano | findstr :");
    push_decimal(&mut s, port);
    s
}

} // verus!
