//! Which enumeration routine a recognised service is handed to: an ordered
//! table from name fragments to routines. What a routine does is the
//! caller's business; the table is all that is decided here.

use crate::text::{contains_folded, contains_in, to_chars};
use vstd::prelude::*;

verus! {

/// The enumeration routines that a service can be handed to.
#[derive(Clone, Copy, Debug, PartialEq, Eq, Structural)]
pub enum Routine {
    Http,
    Smtp,
    Ftp,
    Smb,
    Snmp,
}

impl Routine {
    /// The name by which the routine is called up.
    pub open spec fn label(self) -> Seq<char> {
        match self {
            Routine::Http => "http"@,
            Routine::Smtp => "smtp"@,
            Routine::Ftp => "ftp"@,
            Routine::Smb => "smb"@,
            Routine::Snmp => "snmp"@,
        }
    }

    /// The routine's name.
    pub fn name(self) -> (s: &'static str)
        ensures
            s@ == self.label(),
    {
        match self {
            Routine::Http => "http",
            Routine::Smtp => "smtp",
            Routine::Ftp => "ftp",
            Routine::Smb => "smb",
            Routine::Snmp => "snmp",
        }
    }
}

/// How many entries the table holds.
pub open spec fn routine_count() -> int {
    5
}

/// The routine of the `i`-th entry. An entry's fragment is its routine's
/// name; the entries stand in priority order.
pub open spec fn routine_at(i: int) -> Routine {
    if i == 0 {
        Routine::Http
    } else if i == 1 {
        Routine::Smtp
    } else if i == 2 {
        Routine::Ftp
    } else if i == 3 {
        Routine::Smb
    } else {
        Routine::Snmp
    }
}

/// The routine of the first entry from the `i`-th on whose fragment occurs
/// in `service`, ignoring ASCII case; none where no fragment occurs.
pub open spec fn first_routine(service: Seq<char>, i: int) -> Option<Routine>
    decreases routine_count() - i,
{
    if i < 0 || i >= routine_count() {
        None
    } else if contains_folded(service, routine_at(i).label()) {
        Some(routine_at(i))
    } else {
        first_routine(service, i + 1)
    }
}

/// The routine that a service name is handed to.
pub open spec fn routine_of(service: Seq<char>) -> Option<Routine> {
    first_routine(service, 0)
}

/// The `i`-th entry's routine.
fn routine_entry(i: usize) -> (r: Routine)
    requires
        i < routine_count(),
    ensures
        r == routine_at(i as int),
{
    if i == 0 {
        Routine::Http
    } else if i == 1 {
        Routine::Smtp
    } else if i == 2 {
        Routine::Ftp
    } else if i == 3 {
        Routine::Smb
    } else {
        Routine::Snmp
    }
}

/// Looks a service name up in the table: the first entry whose fragment
/// occurs in the name decides.
pub fn routine_for(service: &str) -> (r: Option<Routine>)
    ensures
        r == routine_of(service@),
{
    let text = to_chars(service);
    let n: usize = text.len();
    assert(text@.subrange(0, n as int) =~= service@);
    let mut i: usize = 0;
    while i < 5
        invariant
            i <= 5,
            n == text@.len(),
            text@.subrange(0, n as int) == service@,
            routine_of(service@) == first_routine(service@, i as int),
        decreases 5 - i,
    {
        let routine = routine_entry(i);
        let fragment = to_chars(routine.name());
        if contains_in(text.as_slice(), 0, n, fragment.as_slice()) {
            return Some(routine);
        }
        i = i + 1;
    }
    None
}

/// Entries whose fragments do not occur are passed over.
pub proof fn lemma_first_routine_skips(service: Seq<char>, from: int, to: int)
    requires
        0 <= from <= to <= routine_count(),
        forall|k: int| from <= k < to ==> !contains_folded(service, routine_at(k).label()),
    ensures
        first_routine(service, from) == first_routine(service, to),
    decreases to - from,
{
    if from < to {
        lemma_first_routine_skips(service, from + 1, to);
    }
}

/// The table is a priority list: where the `i`-th fragment occurs in a
/// name and no earlier one does, the `i`-th routine is chosen, whatever
/// later fragments the name holds as well.
pub proof fn lemma_routine_priority(service: Seq<char>, i: int)
    requires
        0 <= i < routine_count(),
        contains_folded(service, routine_at(i).label()),
        forall|k: int| 0 <= k < i ==> !contains_folded(service, routine_at(k).label()),
    ensures
        routine_of(service) == Some(routine_at(i)),
{
    lemma_first_routine_skips(service, 0, i);
}

} // verus!
