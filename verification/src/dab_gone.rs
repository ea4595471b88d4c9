//! What an unlocked DAB receiver last lost, and when: the record the DAB
//! state keeps so the dock and `get dab` can say "the lock went" instead of
//! a bare "not locked" that reads like a receiver that never found
//! anything.

use vstd::prelude::*;
use crate::text::{decimal, hex4, push_char, push_decimal, push_hex4, push_str};

verus! {

/// Why an unlocked receiver has no table, when it had one or had input.
#[derive(Debug, Clone, Copy, PartialEq, Eq, Structural)]
pub enum GoneCause {
    /// Frames kept arriving but no clean FIC decoded for the receiver's
    /// expiry window: the signal at this centre stopped being DAB.
    Expired,
    /// No IQ frames at all: a stalled link or a disconnect. Cleared by the
    /// next frame that arrives.
    NoInput,
}

/// The script-facing name of a cause (`get dab` → `gone.cause`).
pub open spec fn cause_label(c: GoneCause) -> Seq<char> {
    match c {
        GoneCause::Expired => "expired"@,
        GoneCause::NoInput => "no_input"@,
    }
}

impl GoneCause {
    /// The script-facing name (`get dab` → `gone.cause`).
    pub fn label(self) -> (s: &'static str)
        ensures
            s@ == cause_label(self),
    {
        match self {
            GoneCause::Expired => "expired",
            GoneCause::NoInput => "no_input",
        }
    }
}

/// The identity of an ensemble that is no longer held: enough to say which
/// one went, not a table a path could keep reading as current.
#[derive(Debug, Clone, PartialEq)]
pub struct LostEnsemble {
    pub label: Option<String>,
    pub eid: Option<u16>,
    pub services: usize,
}

/// `NEOWON SIM (EId 1046, 5 services)`: the label (or `<no label>`), the
/// EId in four upper-case hex digits (or `-`), and the service count.
pub open spec fn describe_text(label: Option<Seq<char>>, eid: Option<u16>, services: nat) -> Seq<
    char,
> {
    (match label {
        Some(l) => l,
        None => "<no label>"@,
    }) + " (EId "@ + (match eid {
        Some(e) => hex4(e),
        None => seq!['-'],
    }) + ", "@ + decimal(services) + " services)"@
}

impl LostEnsemble {
    /// The label's characters, when there is a label.
    pub open spec fn label_view(&self) -> Option<Seq<char>> {
        match self.label {
            Some(l) => Some(l@),
            None => None,
        }
    }

    /// `NEOWON SIM (EId 1046, 5 services)`, for the dock.
    pub fn describe(&self) -> (out: String)
        ensures
            out@ == describe_text(self.label_view(), self.eid, self.services as nat),
    {
        let mut out = String::new();
        match &self.label {
            Some(l) => push_str(&mut out, l.as_str()),
            None => push_str(&mut out, "<no label>"),
        }
        push_str(&mut out, " (EId ");
        match self.eid {
            Some(e) => push_hex4(&mut out, e),
            None => push_char(&mut out, '-'),
        }
        push_str(&mut out, ", ");
        push_decimal(&mut out, self.services as u64);
        push_str(&mut out, " services)");
        out
    }
}

/// Why an unlocked receiver has no table, when it had one or had input,
/// and when that happened on the clock `T` the frame times are kept in.
#[derive(Debug, Clone, PartialEq)]
pub struct Gone<T> {
    pub cause: GoneCause,
    /// When it happened, on the clock of `last_frame_at`.
    pub at: T,
    /// The ensemble that went with it, when a table was held.
    pub ensemble: Option<LostEnsemble>,
}

} // verus!
