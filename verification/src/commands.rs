//! The command lines of the outside tools that a scan may call on: what to
//! hand to `ping` and to `nmap`. Running them is the caller's business.

use crate::ports::Protocol;
use crate::text::{push_string, push_text, texts};
use vstd::prelude::*;
use vstd::string::*;

verus! {

/// The arguments of a single echo request to `address`. The count is given
/// with `-n` where the host's `ping` is the Windows one, with `-c`
/// elsewhere.
pub open spec fn ping_arguments_spec(address: Seq<char>, windows: bool) -> Seq<Seq<char>> {
    seq![
        if windows {
            "-n"@
        } else {
            "-c"@
        },
        "1"@,
        address,
    ]
}

/// The arguments to hand to `ping`.
pub fn ping_arguments(address: &str, windows: bool) -> (args: Vec<String>)
    ensures
        texts(args@) == ping_arguments_spec(address@, windows),
{
    let mut args: Vec<String> = Vec::new();
    if windows {
        push_text(&mut args, "-n");
    } else {
        push_text(&mut args, "-c");
    }
    push_text(&mut args, "1");
    push_text(&mut args, address);
    assert(texts(args@) =~= ping_arguments_spec(address@, windows));
    args
}

/// The flags that every `nmap` run of a protocol starts with: verbose
/// output with reasons, version detection and the default scripts; for UDP
/// the version probes at their lowest intensity, and the UDP scan itself.
pub open spec fn nmap_flags(protocol: Protocol) -> Seq<Seq<char>> {
    match protocol {
        Protocol::Tcp => seq!["-vv"@, "--reason"@, "-sV"@, "-sC"@],
        Protocol::Udp => seq![
            "-vv"@,
            "--reason"@,
            "-sV"@,
            "--version-intensity"@,
            "0"@,
            "-sC"@,
            "-sU"@,
        ],
    }
}

/// The ports of an `nmap` run: all of them for a deep scan, else the ones
/// named.
pub open spec fn nmap_ports(ports: Seq<char>, deep_scan: bool) -> Seq<Seq<char>> {
    if deep_scan {
        seq!["-p-"@]
    } else {
        seq!["-p"@, ports]
    }
}

/// Where an `nmap` run writes: a text file and an XML file under the
/// output directory, named after the protocol; nothing without one.
pub open spec fn nmap_outputs(protocol: Protocol, output: Option<Seq<char>>) -> Seq<Seq<char>> {
    match output {
        Some(dir) => seq![
            "-oN"@,
            dir + "/0_"@ + protocol.tag() + "_nmap.txt"@,
            "-oX"@,
            dir + "/0_"@ + protocol.tag() + "_nmap.xml"@,
        ],
        None => Seq::empty(),
    }
}

/// The arguments of an `nmap` run: flags, ports, outputs, and the target
/// last.
pub open spec fn nmap_arguments_spec(
    protocol: Protocol,
    target: Seq<char>,
    ports: Seq<char>,
    deep_scan: bool,
    output: Option<Seq<char>>,
) -> Seq<Seq<char>> {
    nmap_flags(protocol) + nmap_ports(ports, deep_scan) + nmap_outputs(protocol, output) + seq![
        target,
    ]
}

/// The path of an output file of `nmap` under `dir`.
fn nmap_output_path(dir: &str, protocol: Protocol, extension: &str) -> (path: String)
    ensures
        path@ == dir@ + "/0_"@ + protocol.tag() + "_nmap."@ + extension@,
{
    let mut path = String::from_str(dir);
    path.append("/0_");
    path.append(protocol.name());
    path.append("_nmap.");
    path.append(extension);
    path
}

/// The arguments to hand to `nmap`.
pub fn nmap_arguments(
    protocol: Protocol,
    target: &str,
    ports: &str,
    deep_scan: bool,
    output: Option<&str>,
) -> (args: Vec<String>)
    ensures
        texts(args@) == nmap_arguments_spec(
            protocol,
            target@,
            ports@,
            deep_scan,
            match output {
                Some(dir) => Some(dir@),
                None => None,
            },
        ),
{
    let mut args: Vec<String> = Vec::new();
    push_text(&mut args, "-vv");
    push_text(&mut args, "--reason");
    push_text(&mut args, "-sV");
    match protocol {
        Protocol::Tcp => {},
        Protocol::Udp => {
            push_text(&mut args, "--version-intensity");
            push_text(&mut args, "0");
        },
    }
    push_text(&mut args, "-sC");
    match protocol {
        Protocol::Tcp => {},
        Protocol::Udp => {
            push_text(&mut args, "-sU");
        },
    }
    assert(texts(args@) =~= nmap_flags(protocol));
    if deep_scan {
        push_text(&mut args, "-p-");
    } else {
        push_text(&mut args, "-p");
        push_text(&mut args, ports);
    }
    assert(texts(args@) =~= nmap_flags(protocol) + nmap_ports(ports@, deep_scan));
    match output {
        Some(dir) => {
            proof {
                reveal_strlit("_nmap.");
                reveal_strlit("txt");
                reveal_strlit("xml");
                reveal_strlit("_nmap.txt");
                reveal_strlit("_nmap.xml");
                assert("_nmap."@ + "txt"@ =~= "_nmap.txt"@);
                assert("_nmap."@ + "xml"@ =~= "_nmap.xml"@);
            }
            push_text(&mut args, "-oN");
            let text_path = nmap_output_path(dir, protocol, "txt");
            assert(text_path@ =~= dir@ + "/0_"@ + protocol.tag() + "_nmap.txt"@);
            push_string(&mut args, text_path);
            push_text(&mut args, "-oX");
            let xml_path = nmap_output_path(dir, protocol, "xml");
            assert(xml_path@ =~= dir@ + "/0_"@ + protocol.tag() + "_nmap.xml"@);
            push_string(&mut args, xml_path);
        },
        None => {},
    }
    push_text(&mut args, target);
    assert(texts(args@) =~= nmap_arguments_spec(
        protocol,
        target@,
        ports@,
        deep_scan,
        match output {
            Some(dir) => Some(dir@),
            None => None,
        },
    ));
    args
}

} // verus!
