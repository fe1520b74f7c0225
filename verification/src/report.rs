//! Result lines, the sink that collects them, and the report of a scan,
//! which keeps its outcomes in ascending order of port.

use crate::outcome::{OutcomeView, ProbeOutcome};
use crate::ports::Protocol;
use crate::text::{decimal, push_decimal, push_string, push_text, single_line, texts};
use vstd::prelude::*;
use vstd::string::*;

verus! {

/// The line that reports an open port: the port, a slash, the protocol,
/// the word `open`, the service and the version, three blanks between the
/// columns.
pub open spec fn line_of(o: OutcomeView) -> Seq<char>
    recommends
        o.open,
        o.wf(),
{
    decimal(o.port as nat) + "/"@ + o.protocol.tag() + "   open   "@ + o.service->0 + "   "@
        + o.version->0
}

/// A number in decimal holds no line feed.
pub proof fn lemma_decimal_single_line(n: nat)
    ensures
        single_line(decimal(n)),
        decimal(n).len() >= 1,
    decreases n,
{
    if n >= 10 {
        lemma_decimal_single_line(n / 10);
    }
}

/// The line of a well-formed open outcome holds no line feed.
pub proof fn lemma_line_single(o: OutcomeView)
    requires
        o.open,
        o.wf(),
    ensures
        single_line(line_of(o)),
{
    lemma_decimal_single_line(o.port as nat);
    reveal_strlit("/");
    reveal_strlit("tcp");
    reveal_strlit("udp");
    reveal_strlit("   open   ");
    reveal_strlit("   ");
}

/// The line for `outcome`: there is one exactly where the port is open.
pub fn result_line(outcome: &ProbeOutcome) -> (r: Option<String>)
    requires
        outcome.wf(),
    ensures
        outcome.open ==> r is Some && r->0@ == line_of(outcome@),
        !outcome.open ==> r is None,
        r is Some ==> single_line(r->0@),
{
    if !outcome.open {
        return None;
    }
    let mut line = String::new();
    push_decimal(&mut line, outcome.port);
    line.append("/");
    line.append(outcome.protocol.name());
    line.append("   open   ");
    match &outcome.service {
        Some(service) => line.append(service.as_str()),
        None => {},
    }
    line.append("   ");
    match &outcome.version {
        Some(version) => line.append(version.as_str()),
        None => {},
    }
    proof {
        assert(line@ =~= line_of(outcome@));
        lemma_line_single(outcome@);
    }
    Some(line)
}

/// The text of a file that holds `lines`, each followed by a line feed.
pub open spec fn file_content(lines: Seq<Seq<char>>) -> Seq<char>
    decreases lines.len(),
{
    if lines.len() == 0 {
        Seq::empty()
    } else {
        file_content(lines.drop_last()) + lines.last() + seq!['\n']
    }
}

/// How many line feeds `s` holds.
pub open spec fn line_feeds(s: Seq<char>) -> nat
    decreases s.len(),
{
    if s.len() == 0 {
        0
    } else {
        line_feeds(s.drop_last()) + if s.last() == '\n' {
            1nat
        } else {
            0nat
        }
    }
}

/// Line feeds add up over concatenation.
pub proof fn lemma_line_feeds_concat(a: Seq<char>, b: Seq<char>)
    ensures
        line_feeds(a + b) == line_feeds(a) + line_feeds(b),
    decreases b.len(),
{
    if b.len() == 0 {
        assert(a + b =~= a);
    } else {
        lemma_line_feeds_concat(a, b.drop_last());
        assert((a + b).drop_last() =~= a + b.drop_last());
    }
}

/// Text on one line holds no line feed.
pub proof fn lemma_single_line_no_feeds(s: Seq<char>)
    requires
        single_line(s),
    ensures
        line_feeds(s) == 0,
    decreases s.len(),
{
    if s.len() > 0 {
        lemma_single_line_no_feeds(s.drop_last());
    }
}

/// A file written from entries that each stand on one line holds as many
/// line feeds as entries: one line per entry, none broken in two.
pub proof fn lemma_one_line_per_entry(lines: Seq<Seq<char>>)
    requires
        forall|i: int| 0 <= i < lines.len() ==> single_line(#[trigger] lines[i]),
    ensures
        line_feeds(file_content(lines)) == lines.len(),
    decreases lines.len(),
{
    if lines.len() > 0 {
        lemma_one_line_per_entry(lines.drop_last());
        lemma_single_line_no_feeds(lines.last());
        lemma_line_feeds_concat(file_content(lines.drop_last()), lines.last());
        lemma_line_feeds_concat(file_content(lines.drop_last()) + lines.last(), seq!['\n']);
        assert(line_feeds(seq!['\n']) == 1) by {
            assert(seq!['\n'].drop_last() =~= Seq::<char>::empty());
            reveal_with_fuel(line_feeds, 2);
        }
    }
}

/// The file that holds the lines of open outcomes, however many, holds one
/// line feed for each of them: as many whole lines as outcomes.
pub proof fn lemma_one_line_per_outcome(outcomes: Seq<OutcomeView>)
    requires
        forall|i: int| 0 <= i < outcomes.len() ==> (#[trigger] outcomes[i]).open && outcomes[i].wf(),
    ensures
        line_feeds(file_content(outcomes.map_values(|o: OutcomeView| line_of(o))))
            == outcomes.len(),
{
    let lines = outcomes.map_values(|o: OutcomeView| line_of(o));
    assert forall|i: int| 0 <= i < lines.len() implies single_line(#[trigger] lines[i]) by {
        lemma_line_single(outcomes[i]);
    }
    lemma_one_line_per_entry(lines);
}

/// Collects what a scan reports, entry after entry, in the order in which
/// it is handed over. Each entry becomes one line of the output.
#[derive(Debug)]
pub struct ResultSink {
    pub entries: Vec<String>,
}

impl View for ResultSink {
    type V = Seq<Seq<char>>;

    open spec fn view(&self) -> Seq<Seq<char>> {
        texts(self.entries@)
    }
}

impl ResultSink {
    /// A sink that holds nothing yet.
    pub fn new() -> (sink: ResultSink)
        ensures
            sink@ == Seq::<Seq<char>>::empty(),
    {
        let sink = ResultSink { entries: Vec::new() };
        assert(sink@ =~= Seq::<Seq<char>>::empty());
        sink
    }

    /// How many entries the sink holds.
    pub fn len(&self) -> (n: usize)
        ensures
            n == self@.len(),
    {
        self.entries.len()
    }

    /// Records an outcome: an open port adds its line, which is also handed
    /// back for printing; a closed port adds nothing.
    pub fn record(&mut self, outcome: &ProbeOutcome) -> (r: Option<String>)
        requires
            outcome.wf(),
        ensures
            outcome.open ==> r is Some && r->0@ == line_of(outcome@) && final(self)@ == old(
                self,
            )@.push(line_of(outcome@)),
            outcome.open ==> single_line(line_of(outcome@)),
            !outcome.open ==> r is None && final(self)@ == old(self)@,
    {
        match result_line(outcome) {
            Some(line) => {
                let copy = line.clone();
                push_string(&mut self.entries, line);
                Some(copy)
            },
            None => None,
        }
    }

    /// Adds free text as an entry, such as what an inspection of an open
    /// port gave.
    pub fn note(&mut self, text: &str)
        ensures
            final(self)@ == old(self)@.push(text@),
    {
        push_text(&mut self.entries, text);
    }

    /// The text of the output: every entry in order, each followed by a
    /// line feed.
    pub fn finalize(&self) -> (text: String)
        ensures
            text@ == file_content(self@),
    {
        let mut text = String::new();
        let mut i: usize = 0;
        while i < self.entries.len()
            invariant
                i <= self.entries@.len(),
                text@ == file_content(self@.subrange(0, i as int)),
            decreases self.entries@.len() - i,
        {
            text.append(self.entries[i].as_str());
            text.append("\n");
            proof {
                reveal_strlit("\n");
                let upto = self@.subrange(0, i + 1);
                assert(upto.drop_last() =~= self@.subrange(0, i as int));
                assert(upto.last() == self.entries@[i as int]@);
                assert("\n"@ =~= seq!['\n']);
            }
            i = i + 1;
        }
        assert(self@.subrange(0, i as int) =~= self@);
        text
    }
}

/// Whether the ports of `entries` rise strictly from one entry to the next.
pub open spec fn ascending(entries: Seq<ProbeOutcome>) -> bool {
    forall|i: int, j: int| 0 <= i < j < entries.len() ==> entries[i].port < entries[j].port
}

/// Whether some entry is for `port`.
pub open spec fn has_port(entries: Seq<ProbeOutcome>, port: u16) -> bool {
    exists|i: int| 0 <= i < entries.len() && entries[i].port == port
}

/// The outcomes of a scan under one protocol, in ascending order of port,
/// each port at most once.
#[derive(Debug)]
pub struct ScanReport {
    pub protocol: Protocol,
    pub entries: Vec<ProbeOutcome>,
}

impl ScanReport {
    /// The entries rise by port, are well-formed and of the report's
    /// protocol.
    pub open spec fn wf(&self) -> bool {
        &&& ascending(self.entries@)
        &&& forall|i: int|
            0 <= i < self.entries@.len() ==> (#[trigger] self.entries@[i]).wf()
                && self.entries@[i].protocol == self.protocol
    }

    /// Whether the report takes `outcome`: it is of the report's protocol
    /// and its port is not reported yet.
    pub open spec fn takes(&self, outcome: ProbeOutcome) -> bool {
        outcome.protocol == self.protocol && !has_port(self.entries@, outcome.port)
    }

    /// An empty report.
    pub fn new(protocol: Protocol) -> (report: ScanReport)
        ensures
            report.wf(),
            report.protocol == protocol,
            report.entries@.len() == 0,
    {
        ScanReport { protocol, entries: Vec::new() }
    }

    /// How many outcomes the report holds.
    pub fn len(&self) -> (n: usize)
        ensures
            n == self.entries@.len(),
    {
        self.entries.len()
    }

    /// Where `port` stands or would stand: the number of entries with a
    /// lower port, and whether the entry there is for `port`.
    pub fn position(&self, port: u16) -> (r: (usize, bool))
        requires
            self.wf(),
        ensures
            r.0 <= self.entries@.len(),
            forall|i: int| 0 <= i < r.0 ==> self.entries@[i].port < port,
            forall|i: int| r.0 <= i < self.entries@.len() ==> self.entries@[i].port >= port,
            r.1 == has_port(self.entries@, port),
            r.1 ==> r.0 < self.entries@.len() && self.entries@[r.0 as int].port == port,
    {
        let mut k: usize = 0;
        let mut above: usize = self.entries.len();
        while k < above
            invariant
                self.wf(),
                k <= above <= self.entries@.len(),
                forall|i: int| 0 <= i < k ==> self.entries@[i].port < port,
                forall|i: int| above <= i < self.entries@.len() ==> self.entries@[i].port >= port,
            decreases above - k,
        {
            let mid: usize = k + (above - k) / 2;
            if self.entries[mid].port < port {
                assert forall|i: int| 0 <= i < mid + 1 implies self.entries@[i].port < port by {
                    if i < mid {
                        assert(self.entries@[i].port < self.entries@[mid as int].port);
                    }
                }
                k = mid + 1;
            } else {
                assert forall|i: int| mid <= i < self.entries@.len() implies self.entries@[i].port
                    >= port by {
                    if i > mid {
                        assert(self.entries@[mid as int].port < self.entries@[i].port);
                    }
                }
                above = mid;
            }
        }
        let found = k < self.entries.len() && self.entries[k].port == port;
        proof {
            if !found && has_port(self.entries@, port) {
                let i = choose|i: int| 0 <= i < self.entries@.len() && self.entries@[i].port == port;
                if i > k {
                    assert(self.entries@[k as int].port < self.entries@[i].port);
                }
                assert(false);
            }
        }
        (k, found)
    }

    /// Puts `outcome` in its place by port and says where that is. An
    /// outcome of another protocol, or for a port that is reported already,
    /// is not taken, and the report stays as it was.
    pub fn insert(&mut self, outcome: ProbeOutcome) -> (r: Option<usize>)
        requires
            old(self).wf(),
            outcome.wf(),
        ensures
            final(self).wf(),
            final(self).protocol == old(self).protocol,
            old(self).takes(outcome) ==> r is Some && final(self).entries@ == old(
                self,
            ).entries@.insert(r->0 as int, outcome),
            r is Some ==> r->0 <= old(self).entries@.len() && (forall|i: int|
                0 <= i < r->0 ==> old(self).entries@[i].port < outcome.port) && (forall|i: int|
                r->0 <= i < old(self).entries@.len() ==> old(self).entries@[i].port
                    > outcome.port),
            !old(self).takes(outcome) ==> r is None && final(self).entries@ == old(self).entries@,
    {
        if !protocol_eq(outcome.protocol, self.protocol) {
            return None;
        }
        let (k, found) = self.position(outcome.port);
        if found {
            return None;
        }
        proof {
            assert forall|i: int| k <= i < self.entries@.len() implies self.entries@[i].port
                > outcome.port by {
                if self.entries@[i].port == outcome.port {
                    assert(has_port(self.entries@, outcome.port));
                }
            }
        }
        self.entries.insert(k, outcome);
        Some(k)
    }

    /// The ports that the report shows open, ascending.
    pub fn open_ports(&self) -> (v: Vec<u16>)
        ensures
            v@ == open_ports_of(self.entries@),
    {
        let mut v: Vec<u16> = Vec::new();
        let mut i: usize = 0;
        while i < self.entries.len()
            invariant
                i <= self.entries@.len(),
                v@ == open_ports_of(self.entries@.subrange(0, i as int)),
            decreases self.entries@.len() - i,
        {
            proof {
                let upto = self.entries@.subrange(0, i + 1);
                assert(upto.drop_last() =~= self.entries@.subrange(0, i as int));
            }
            if self.entries[i].open {
                v.push(self.entries[i].port);
            }
            i = i + 1;
        }
        assert(self.entries@.subrange(0, i as int) =~= self.entries@);
        v
    }
}

/// The ports of the open outcomes among `entries`, in their order.
pub open spec fn open_ports_of(entries: Seq<ProbeOutcome>) -> Seq<u16>
    decreases entries.len(),
{
    if entries.len() == 0 {
        Seq::empty()
    } else if entries.last().open {
        open_ports_of(entries.drop_last()).push(entries.last().port)
    } else {
        open_ports_of(entries.drop_last())
    }
}

/// Whether two protocols are the same.
pub fn protocol_eq(a: Protocol, b: Protocol) -> (same: bool)
    ensures
        same == (a == b),
{
    match (a, b) {
        (Protocol::Tcp, Protocol::Tcp) => true,
        (Protocol::Udp, Protocol::Udp) => true,
        _ => false,
    }
}

/// Putting an outcome into a sequence adds it to the set of outcomes held,
/// and changes that set in no other way.
pub proof fn lemma_insert_adds(entries: Seq<ProbeOutcome>, k: int, outcome: ProbeOutcome)
    requires
        0 <= k <= entries.len(),
    ensures
        entries.insert(k, outcome).to_set() == entries.to_set().insert(outcome),
{
    let after = entries.insert(k, outcome);
    assert forall|x: ProbeOutcome| after.to_set().contains(x) <==> entries.to_set().insert(
        outcome,
    ).contains(x) by {
        if after.contains(x) {
            let i = choose|i: int| 0 <= i < after.len() && after[i] == x;
            if i < k {
                assert(entries[i] == x);
            } else if i > k {
                assert(entries[i - 1] == x);
            }
        }
        if entries.contains(x) {
            let i = choose|i: int| 0 <= i < entries.len() && entries[i] == x;
            if i < k {
                assert(after[i] == x);
            } else {
                assert(after[i + 1] == x);
            }
        }
        if x == outcome {
            assert(after[k] == x);
        }
    }
    assert(after.to_set() =~= entries.to_set().insert(outcome));
}

/// Two sequences in ascending order of port agree up to `i` where they hold
/// the same outcomes.
proof fn lemma_prefix_agrees(a: Seq<ProbeOutcome>, b: Seq<ProbeOutcome>, i: int)
    requires
        ascending(a),
        ascending(b),
        a.to_set() == b.to_set(),
        0 <= i <= a.len(),
    ensures
        i <= b.len(),
        forall|k: int| 0 <= k < i ==> a[k] == b[k],
    decreases i,
{
    if i > 0 {
        lemma_prefix_agrees(a, b, i - 1);
        let x = a[i - 1];
        assert(a.contains(x));
        assert(a.to_set().contains(x));
        assert(b.to_set().contains(x));
        assert(b.contains(x));
        let j = choose|j: int| 0 <= j < b.len() && b[j] == x;
        if j < i - 1 {
            assert(a[j] == b[j]);
            assert(a[j].port < a[i - 1].port);
        }
        let y = b[i - 1];
        assert(b.contains(y));
        assert(b.to_set().contains(y));
        assert(a.to_set().contains(y));
        assert(a.contains(y));
        let m = choose|m: int| 0 <= m < a.len() && a[m] == y;
        if m < i - 1 {
            assert(a[m] == b[m]);
            assert(b[m].port < b[i - 1].port);
        }
        if j > i - 1 {
            assert(b[i - 1].port < b[j].port);
            if m > i - 1 {
                assert(a[i - 1].port < a[m].port);
            }
        }
    }
}

/// A report is determined by the outcomes it holds: two sequences in
/// ascending order of port that hold the same set of outcomes are equal,
/// in whatever order the outcomes came in.
pub proof fn lemma_order_determined(a: Seq<ProbeOutcome>, b: Seq<ProbeOutcome>)
    requires
        ascending(a),
        ascending(b),
        a.to_set() == b.to_set(),
    ensures
        a == b,
{
    lemma_prefix_agrees(a, b, a.len() as int);
    lemma_prefix_agrees(b, a, b.len() as int);
    assert(a =~= b);
}

/// In ascending order the `i`-th port lies at least `i` above the lowest
/// port allowed.
proof fn lemma_port_floor(entries: Seq<ProbeOutcome>, start: int, i: int)
    requires
        ascending(entries),
        0 <= i < entries.len(),
        forall|k: int| 0 <= k < entries.len() ==> start <= (#[trigger] entries[k]).port,
    ensures
        entries[i].port >= start + i,
    decreases i,
{
    if i > 0 {
        lemma_port_floor(entries, start, i - 1);
        assert(entries[i - 1].port < entries[i].port);
    }
}

/// In ascending order the `i`-th port lies as far below the highest port
/// allowed as entries follow it.
proof fn lemma_port_ceiling(entries: Seq<ProbeOutcome>, bound: int, i: int)
    requires
        ascending(entries),
        0 <= i < entries.len(),
        forall|k: int| 0 <= k < entries.len() ==> (#[trigger] entries[k]).port < bound,
    ensures
        entries[i].port <= bound - (entries.len() - i),
    decreases entries.len() - i,
{
    if i + 1 < entries.len() {
        lemma_port_ceiling(entries, bound, i + 1);
        assert(entries[i].port < entries[i + 1].port);
    }
}

/// As many entries in ascending order as there are ports between two
/// bounds hold every one of those ports, in order.
pub proof fn lemma_ascending_fills(entries: Seq<ProbeOutcome>, start: int, count: int)
    requires
        ascending(entries),
        entries.len() == count,
        forall|k: int|
            0 <= k < entries.len() ==> start <= (#[trigger] entries[k]).port < start + count,
    ensures
        forall|i: int| 0 <= i < count ==> (#[trigger] entries[i]).port == start + i,
{
    assert forall|i: int| 0 <= i < count implies (#[trigger] entries[i]).port == start + i by {
        lemma_port_floor(entries, start, i);
        lemma_port_ceiling(entries, start + count, i);
    }
}

} // verus!
