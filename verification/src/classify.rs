//! Service classification: what a banner says about the service behind a
//! port, by an ordered list of signatures, and the version line it carries.

use crate::text::{
    contains_folded, contains_in, find_line_end, find_line_stop, first_line, lemma_line_is_single,
    lemma_lines_are_single, line_at, lines, lines_from, single_line, to_chars,
};
use vstd::prelude::*;
use vstd::string::*;

verus! {

/// The services that a banner can be recognised as.
#[derive(Clone, Copy, Debug, PartialEq, Eq, Structural)]
pub enum ServiceKind {
    Ssh,
    Http,
    Https,
    Ftp,
    Smtp,
    Imap,
    Pop3,
    Telnet,
    Dns,
    Unknown,
}

impl ServiceKind {
    /// The service's name as it is written in results.
    pub open spec fn label(self) -> Seq<char> {
        match self {
            ServiceKind::Ssh => "ssh"@,
            ServiceKind::Http => "http"@,
            ServiceKind::Https => "https"@,
            ServiceKind::Ftp => "ftp"@,
            ServiceKind::Smtp => "smtp"@,
            ServiceKind::Imap => "imap"@,
            ServiceKind::Pop3 => "pop3"@,
            ServiceKind::Telnet => "telnet"@,
            ServiceKind::Dns => "dns"@,
            ServiceKind::Unknown => "unknown"@,
        }
    }

    /// The service's name.
    pub fn name(self) -> (s: &'static str)
        ensures
            s@ == self.label(),
    {
        match self {
            ServiceKind::Ssh => "ssh",
            ServiceKind::Http => "http",
            ServiceKind::Https => "https",
            ServiceKind::Ftp => "ftp",
            ServiceKind::Smtp => "smtp",
            ServiceKind::Imap => "imap",
            ServiceKind::Pop3 => "pop3",
            ServiceKind::Telnet => "telnet",
            ServiceKind::Dns => "dns",
            ServiceKind::Unknown => "unknown",
        }
    }
}

/// How many signatures the list holds.
pub open spec fn signature_count() -> int {
    11
}

/// The token of the `i`-th signature, in small letters. The list is in
/// priority order: an earlier entry wins over a later one.
pub open spec fn signature_token(i: int) -> Seq<char> {
    if i == 0 {
        "ssh"@
    } else if i == 1 {
        "http/1.0"@
    } else if i == 2 {
        "http/1.1"@
    } else if i == 3 {
        "https"@
    } else if i == 4 {
        "ssl"@
    } else if i == 5 {
        "ftp"@
    } else if i == 6 {
        "smtp"@
    } else if i == 7 {
        "imap"@
    } else if i == 8 {
        "pop3"@
    } else if i == 9 {
        "telnet"@
    } else {
        "dns"@
    }
}

/// The service that the `i`-th signature stands for.
pub open spec fn signature_kind(i: int) -> ServiceKind {
    if i == 0 {
        ServiceKind::Ssh
    } else if i == 1 || i == 2 {
        ServiceKind::Http
    } else if i == 3 || i == 4 {
        ServiceKind::Https
    } else if i == 5 {
        ServiceKind::Ftp
    } else if i == 6 {
        ServiceKind::Smtp
    } else if i == 7 {
        ServiceKind::Imap
    } else if i == 8 {
        ServiceKind::Pop3
    } else if i == 9 {
        ServiceKind::Telnet
    } else {
        ServiceKind::Dns
    }
}

/// The service of the first signature from the `i`-th on whose token occurs
/// in `text`, ignoring ASCII case; `Unknown` where none occurs.
pub open spec fn first_signature(text: Seq<char>, i: int) -> ServiceKind
    decreases signature_count() - i,
{
    if i < 0 || i >= signature_count() {
        ServiceKind::Unknown
    } else if contains_folded(text, signature_token(i)) {
        signature_kind(i)
    } else {
        first_signature(text, i + 1)
    }
}

/// The service that `text` is recognised as.
pub open spec fn service_of(text: Seq<char>) -> ServiceKind {
    first_signature(text, 0)
}

/// Whether a line names the server software.
pub open spec fn has_server_header(line: Seq<char>) -> bool {
    contains_folded(line, "server:"@)
}

/// The first of `ls` that names the server software.
pub open spec fn first_server_line(ls: Seq<Seq<char>>) -> Option<Seq<char>>
    decreases ls.len(),
{
    if ls.len() == 0 {
        None
    } else if has_server_header(ls[0]) {
        Some(ls[0])
    } else {
        first_server_line(ls.drop_first())
    }
}

/// The version string of a response: its first line that names the server
/// software, whole; its first line where no line does.
pub open spec fn version_of(text: Seq<char>) -> Seq<char> {
    match first_server_line(lines(text)) {
        Some(line) => line,
        None => first_line(text),
    }
}

/// The service and version string that a response is classified as. A
/// response that no signature recognises keeps its first line as version.
pub open spec fn classification(text: Seq<char>) -> (ServiceKind, Seq<char>) {
    let kind = service_of(text);
    if kind == ServiceKind::Unknown {
        (kind, first_line(text))
    } else {
        (kind, version_of(text))
    }
}

/// A service's name holds no line feed.
pub proof fn lemma_label_single_line(kind: ServiceKind)
    ensures
        single_line(kind.label()),
{
    reveal_strlit("ssh");
    reveal_strlit("http");
    reveal_strlit("https");
    reveal_strlit("ftp");
    reveal_strlit("smtp");
    reveal_strlit("imap");
    reveal_strlit("pop3");
    reveal_strlit("telnet");
    reveal_strlit("dns");
    reveal_strlit("unknown");
}

/// Where one of `ls` names the server software, the first that does is one
/// of them and names it, and none before it does; where none does, there
/// is no such line.
pub proof fn lemma_first_server_line(ls: Seq<Seq<char>>)
    ensures
        match first_server_line(ls) {
            Some(line) => exists|i: int|
                0 <= i < ls.len() && #[trigger] ls[i] == line && has_server_header(line) && forall|
                    k: int,
                | 0 <= k < i ==> !has_server_header(#[trigger] ls[k]),
            None => forall|k: int| 0 <= k < ls.len() ==> !has_server_header(#[trigger] ls[k]),
        },
    decreases ls.len(),
{
    if ls.len() > 0 {
        if has_server_header(ls[0]) {
            assert(ls[0] == first_server_line(ls)->0);
        } else {
            let rest = ls.drop_first();
            lemma_first_server_line(rest);
            match first_server_line(rest) {
                Some(line) => {
                    let i = choose|i: int|
                        0 <= i < rest.len() && #[trigger] rest[i] == line && has_server_header(line)
                            && forall|k: int| 0 <= k < i ==> !has_server_header(#[trigger] rest[k]);
                    assert(ls[i + 1] == line);
                    assert forall|k: int| 0 <= k < i + 1 implies !has_server_header(
                        #[trigger] ls[k],
                    ) by {
                        if k > 0 {
                            assert(ls[k] == rest[k - 1]);
                        }
                    }
                },
                None => {
                    assert forall|k: int| 0 <= k < ls.len() implies !has_server_header(
                        #[trigger] ls[k],
                    ) by {
                        if k > 0 {
                            assert(ls[k] == rest[k - 1]);
                        }
                    }
                },
            }
        }
    }
}

/// The service and the version string of a classification each stand on
/// one line.
pub proof fn lemma_classification_single_line(text: Seq<char>)
    ensures
        single_line(classification(text).0.label()),
        single_line(classification(text).1),
        single_line(version_of(text)),
{
    lemma_label_single_line(classification(text).0);
    lemma_line_is_single(text, 0);
    lemma_lines_are_single(text, 0);
    lemma_first_server_line(lines(text));
}

/// The signature list is a priority list: where the `i`-th token occurs in
/// a text and no earlier one does, the text is recognised as the `i`-th
/// signature's service, whatever later tokens it holds as well.
pub proof fn lemma_signature_priority(text: Seq<char>, i: int)
    requires
        0 <= i < signature_count(),
        contains_folded(text, signature_token(i)),
        forall|k: int| 0 <= k < i ==> !contains_folded(text, signature_token(k)),
    ensures
        service_of(text) == signature_kind(i),
{
    lemma_first_signature_skips(text, 0, i);
}

/// Signatures whose tokens do not occur are passed over.
pub proof fn lemma_first_signature_skips(text: Seq<char>, from: int, to: int)
    requires
        0 <= from <= to <= signature_count(),
        forall|k: int| from <= k < to ==> !contains_folded(text, signature_token(k)),
    ensures
        first_signature(text, from) == first_signature(text, to),
    decreases to - from,
{
    if from < to {
        lemma_first_signature_skips(text, from + 1, to);
    }
}

/// A text that holds none of the tokens is recognised as nothing, and its
/// version string is its first line.
pub proof fn lemma_unrecognised(text: Seq<char>)
    requires
        forall|k: int| 0 <= k < signature_count() ==> !contains_folded(text, signature_token(k)),
    ensures
        classification(text) == (ServiceKind::Unknown, first_line(text)),
{
    lemma_first_signature_skips(text, 0, signature_count());
}

/// A response that holds an HTTP version token, and not the SSH token
/// that would win over it, is classified as http; where one of its lines
/// names the server software, the first such line is its version, whatever
/// else the response holds.
pub proof fn lemma_http_with_server(text: Seq<char>)
    requires
        contains_folded(text, "http/1.0"@) || contains_folded(text, "http/1.1"@),
        !contains_folded(text, "ssh"@),
        first_server_line(lines(text)) is Some,
    ensures
        classification(text) == (ServiceKind::Http, first_server_line(lines(text))->0),
{
    reveal_with_fuel(first_signature, 4);
}

/// Classification depends on the text alone: equal texts are classified
/// alike.
pub proof fn lemma_classification_deterministic(a: Seq<char>, b: Seq<char>)
    requires
        a =~= b,
    ensures
        classification(a) == classification(b),
{
}

/// What lossy UTF-8 decoding makes of `bytes`.
pub uninterp spec fn utf8_lossy(bytes: Seq<u8>) -> Seq<char>;

/// `String::from_utf8_lossy` of std: decodes `raw` as UTF-8 and puts the
/// replacement character where the bytes are no valid UTF-8. The text that
/// comes out depends on the bytes alone; nothing more is claimed of it.
#[verifier::external_body]
fn decode_lossy(raw: &[u8]) -> (s: String)
    ensures
        s@ == utf8_lossy(raw@),
{
    String::from_utf8_lossy(raw).into_owned()
}

/// The `i`-th signature: its token and its service.
fn signature(i: usize) -> (r: (&'static str, ServiceKind))
    requires
        i < signature_count(),
    ensures
        r.0@ == signature_token(i as int),
        r.1 == signature_kind(i as int),
{
    if i == 0 {
        ("ssh", ServiceKind::Ssh)
    } else if i == 1 {
        ("http/1.0", ServiceKind::Http)
    } else if i == 2 {
        ("http/1.1", ServiceKind::Http)
    } else if i == 3 {
        ("https", ServiceKind::Https)
    } else if i == 4 {
        ("ssl", ServiceKind::Https)
    } else if i == 5 {
        ("ftp", ServiceKind::Ftp)
    } else if i == 6 {
        ("smtp", ServiceKind::Smtp)
    } else if i == 7 {
        ("imap", ServiceKind::Imap)
    } else if i == 8 {
        ("pop3", ServiceKind::Pop3)
    } else if i == 9 {
        ("telnet", ServiceKind::Telnet)
    } else {
        ("dns", ServiceKind::Dns)
    }
}

/// The service that `text` is recognised as: the first signature in
/// priority order whose token occurs in it.
pub fn detect_service(text: &[char]) -> (kind: ServiceKind)
    ensures
        kind == service_of(text@),
{
    let n: usize = text.len();
    assert(text@.subrange(0, n as int) =~= text@);
    let mut i: usize = 0;
    while i < 11
        invariant
            i <= 11,
            n == text@.len(),
            text@.subrange(0, n as int) == text@,
            service_of(text@) == first_signature(text@, i as int),
        decreases 11 - i,
    {
        let entry = signature(i);
        let token = to_chars(entry.0);
        if contains_in(text, 0, n, token.as_slice()) {
            return entry.1;
        }
        i = i + 1;
    }
    ServiceKind::Unknown
}

/// The bounds of the first line of `text` that names the server software.
pub(crate) fn find_server_line(text: &[char]) -> (r: Option<(usize, usize)>)
    ensures
        match r {
            Some((from, stop)) => from <= stop <= text@.len() && first_server_line(lines(text@))
                == Some(text@.subrange(from as int, stop as int)),
            None => first_server_line(lines(text@)) is None,
        },
{
    let n: usize = text.len();
    let token = to_chars("server:");
    let mut from: usize = 0;
    while from < n
        invariant
            from <= n,
            n == text@.len(),
            token@ == "server:"@,
            first_server_line(lines(text@)) == first_server_line(lines_from(text@, from as int)),
        decreases n - from,
    {
        let end = find_line_end(text, from);
        let stop = find_line_stop(text, from, end);
        proof {
            let rest = lines_from(text@, end + 1);
            let here = lines_from(text@, from as int);
            assert(here == seq![line_at(text@, from as int)] + rest);
            assert(here[0] == text@.subrange(from as int, stop as int));
            assert(here.drop_first() =~= rest);
        }
        if contains_in(text, from, stop, token.as_slice()) {
            return Some((from, stop));
        }
        if end == n {
            from = n;
        } else {
            from = end + 1;
        }
    }
    None
}

/// The bounds of the first line of `text`.
pub(crate) fn find_first_line(text: &[char]) -> (r: (usize, usize))
    ensures
        r.0 <= r.1 <= text@.len(),
        first_line(text@) == text@.subrange(r.0 as int, r.1 as int),
{
    if text.len() == 0 {
        (0, 0)
    } else {
        let end = find_line_end(text, 0);
        let stop = find_line_stop(text, 0, end);
        (0, stop)
    }
}

/// The part of `response` between two character positions, as a string.
fn slice_string(response: &str, from: usize, to: usize) -> (s: String)
    requires
        from <= to <= response@.len(),
    ensures
        s@ == response@.subrange(from as int, to as int),
{
    String::from_str(response.substring_char(from, to))
}

/// The version string of a response: the first line that holds `server:`,
/// in any mix of capitals and small letters, or else the first line.
pub fn extract_version(response: &str) -> (version: String)
    ensures
        version@ == version_of(response@),
{
    let text = to_chars(response);
    match find_server_line(text.as_slice()) {
        Some((from, stop)) => slice_string(response, from, stop),
        None => {
            let bounds = find_first_line(text.as_slice());
            slice_string(response, bounds.0, bounds.1)
        },
    }
}

/// Classifies a response: the service by the signature list, and the
/// version string that goes with it.
pub fn classify_text(response: &str) -> (r: (ServiceKind, String))
    ensures
        r.0 == classification(response@).0,
        r.1@ == classification(response@).1,
{
    let text = to_chars(response);
    let kind = detect_service(text.as_slice());
    match kind {
        ServiceKind::Unknown => {
            let bounds = find_first_line(text.as_slice());
            (kind, slice_string(response, bounds.0, bounds.1))
        },
        _ => (kind, extract_version(response)),
    }
}

/// The service name and version string of a response.
pub fn identify_service_version(response: &str) -> (r: (String, String))
    ensures
        r.0@ == classification(response@).0.label(),
        r.1@ == classification(response@).1,
{
    let (kind, version) = classify_text(response);
    (String::from_str(kind.name()), version)
}

/// Classifies the bytes of a banner: they are decoded as UTF-8, lossily,
/// and the text is classified.
pub fn classify(raw: &[u8]) -> (r: (String, String))
    ensures
        r.0@ == classification(utf8_lossy(raw@)).0.label(),
        r.1@ == classification(utf8_lossy(raw@)).1,
{
    let text = decode_lossy(raw);
    identify_service_version(text.as_str())
}

} // verus!
