//! The client side of the event stream: which of the received events a
//! client prints, by the kind of events it asked for.

use vstd::prelude::*;
use vstd::string::StringExecFns;
use crate::build_loop::Event;

verus! {

/// Options for the kinds of events to report.
#[derive(Debug, PartialEq, Eq, Structural, Clone, Copy)]
pub enum EventKind {
    /// Report only live events: those that happen after invocation.
    Live,
    /// Report the events recorded for projects up until invocation.
    Snapshot,
    /// Report all events.
    All,
}

/// The text of the error for an unknown kind `s`.
pub open spec fn kind_error(s: Seq<char>) -> Seq<char> {
    s + " not in all,live,snapshot"@
}

/// The kind named `s`, if any.
pub open spec fn kind_named(s: Seq<char>) -> Option<EventKind> {
    if s == "all"@ {
        Some(EventKind::All)
    } else if s == "live"@ {
        Some(EventKind::Live)
    } else if s == "snapshot"@ {
        Some(EventKind::Snapshot)
    } else {
        None
    }
}

/// Whether `s` and `t` hold the same characters.
fn str_eq(s: &str, t: &str) -> (r: bool)
    ensures
        r == (s@ == t@),
{
    let n = s.unicode_len();
    if n != t.unicode_len() {
        return false;
    }
    let mut i: usize = 0;
    while i < n
        invariant
            n == s@.len(),
            n == t@.len(),
            i <= n,
            forall|k: int| 0 <= k < i ==> s@[k] == t@[k],
        decreases n - i,
    {
        if s.get_char(i) != t.get_char(i) {
            return false;
        }
        i = i + 1;
    }
    assert(s@ =~= t@);
    true
}

impl EventKind {
    /// Parses `all`, `live` or `snapshot`.
    pub fn from_str(s: &str) -> (r: Result<EventKind, String>)
        ensures
            match kind_named(s@) {
                Some(k) => r == Ok::<EventKind, String>(k),
                None => r is Err && r->Err_0@ == kind_error(s@),
            },
    {
        proof {
            reveal_strlit("all");
            reveal_strlit("live");
            reveal_strlit("snapshot");
            reveal_strlit(" not in all,live,snapshot");
        }
        if str_eq(s, "all") {
            Ok(EventKind::All)
        } else if str_eq(s, "live") {
            Ok(EventKind::Live)
        } else if str_eq(s, "snapshot") {
            Ok(EventKind::Snapshot)
        } else {
            Err(String::from_str(s).concat(" not in all,live,snapshot"))
        }
    }
}

/// What a client does with a received event.
#[derive(Debug, PartialEq, Eq, Structural, Clone, Copy)]
pub enum Verdict {
    /// Print the event.
    Print,
    /// Pass over the event.
    Skip,
    /// Stop reading: everything asked for has been printed.
    Stop,
}

/// The verdict on an event, where `ends_section` tells whether it is the
/// `SectionEnd` marker and `snapshot_done` whether one was seen before.
pub open spec fn verdict(kind: EventKind, snapshot_done: bool, ends_section: bool) -> Verdict {
    if ends_section {
        if kind == EventKind::Snapshot {
            Verdict::Stop
        } else {
            Verdict::Skip
        }
    } else if kind == EventKind::All || (!snapshot_done && kind == EventKind::Snapshot) || (
    snapshot_done && kind == EventKind::Live) {
        Verdict::Print
    } else {
        Verdict::Skip
    }
}

/// Chooses, event by event, what a client that asked for `kind` reports.
pub struct EventFilter {
    pub kind: EventKind,
    /// A `SectionEnd` was received: what follows is live.
    pub snapshot_done: bool,
}

impl EventFilter {
    /// A filter that has not yet seen the end of the recorded section.
    pub fn new(kind: EventKind) -> (r: EventFilter)
        ensures
            r.kind == kind,
            !r.snapshot_done,
    {
        EventFilter { kind, snapshot_done: false }
    }

    /// Decides on one received event.
    pub fn step(&mut self, ev: &Event) -> (r: Verdict)
        ensures
            r == verdict(old(self).kind, old(self).snapshot_done, *ev is SectionEnd),
            final(self).kind == old(self).kind,
            final(self).snapshot_done == (old(self).snapshot_done || *ev is SectionEnd),
    {
        let ends = match ev {
            Event::SectionEnd => true,
            _ => false,
        };
        let r = if ends {
            match self.kind {
                EventKind::Snapshot => Verdict::Stop,
                _ => Verdict::Skip,
            }
        } else {
            match (self.snapshot_done, self.kind) {
                (_, EventKind::All) | (false, EventKind::Snapshot) | (true, EventKind::Live) => {
                    Verdict::Print
                },
                _ => Verdict::Skip,
            }
        };
        if ends {
            self.snapshot_done = true;
        }
        r
    }
}

} // verus!
