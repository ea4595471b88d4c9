//! What the DAB dock says and offers: the unlocked receiver's status in
//! words, and the transport row's Play button. An unlocked receiver is
//! told apart by what happened (stopped, lock lost, input gone, still
//! searching), and a selection that can never play has Play disabled with
//! the reason rather than offered and refused.

use vstd::prelude::*;
use crate::dab_gone::{describe_text, Gone, GoneCause, LostEnsemble};
use crate::text::push_str;

verus! {

/// How the dock names the ensemble a loss record names.
pub open spec fn which_text(e: Option<LostEnsemble>) -> Seq<char> {
    match e {
        Some(e) => describe_text(e.label_view(), e.eid, e.services as nat),
        None => "the ensemble"@,
    }
}

/// The unlocked receiver's status: a stopped SDR first, then the loss
/// record (`age` is how long ago it happened, in whole seconds as the dock
/// prints them), else a receiver still searching.
pub open spec fn lock_text_of<T>(running: bool, gone: Option<Gone<T>>, age: Seq<char>) -> Seq<char> {
    if !running {
        "no input - the SDR is stopped (front panel Run)"@
    } else {
        match gone {
            Some(g) => match g.cause {
                GoneCause::Expired => "lock lost "@ + age + " s ago: "@ + which_text(g.ensemble)
                    + " - no clean FIC since, its table expired"@,
                GoneCause::NoInput => "no input for "@ + age + " s: the IQ stream stopped; "@
                    + which_text(g.ensemble) + " dropped"@,
            },
            None => "not locked - searching for an ensemble at this centre"@,
        }
    }
}

/// The unlocked receiver's status line.
pub fn lock_text<T>(running: bool, gone: &Option<Gone<T>>, age: &str) -> (out: String)
    ensures
        out@ == lock_text_of(running, *gone, age@),
{
    let mut s = String::new();
    if !running {
        push_str(&mut s, "no input - the SDR is stopped (front panel Run)");
        return s;
    }
    match gone {
        Some(g) => {
            let which = match &g.ensemble {
                Some(e) => e.describe(),
                None => {
                    let mut w = String::new();
                    push_str(&mut w, "the ensemble");
                    w
                },
            };
            match g.cause {
                GoneCause::Expired => {
                    push_str(&mut s, "lock lost ");
                    push_str(&mut s, age);
                    push_str(&mut s, " s ago: ");
                    push_str(&mut s, which.as_str());
                    push_str(&mut s, " - no clean FIC since, its table expired");
                },
                GoneCause::NoInput => {
                    push_str(&mut s, "no input for ");
                    push_str(&mut s, age);
                    push_str(&mut s, " s: the IQ stream stopped; ");
                    push_str(&mut s, which.as_str());
                    push_str(&mut s, " dropped");
                },
            }
        },
        None => push_str(&mut s, "not locked - searching for an ensemble at this centre"),
    }
    s
}

/// The transport row's Play button and the note shown while no transport
/// runs.
pub struct TransportRow {
    /// Play can be pressed.
    pub play_enabled: bool,
    /// What the button says when it cannot be pressed.
    pub play_hint: String,
    /// The note beside the buttons while no transport runs.
    pub idle_note: &'static str,
}

/// The Play button's hover text for a selection: none selected, one that
/// cannot play and why, or one that can.
pub open spec fn play_hint_of(why_not: Option<Option<Seq<char>>>) -> Seq<char> {
    match why_not {
        None => "click a service in the list below first"@,
        Some(Some(why)) => "cannot play: "@ + why,
        Some(None) => "playing"@,
    }
}

/// The note beside the buttons while no transport runs.
pub open spec fn idle_note_of(why_not: Option<Option<Seq<char>>>) -> Seq<char> {
    match why_not {
        None => "audio off - select a service"@,
        Some(Some(_)) => "this service cannot play"@,
        Some(None) => "audio off - press Play"@,
    }
}

/// The characters of a reason a selection cannot play.
pub open spec fn reason_view(why_not: Option<Option<&str>>) -> Option<Option<Seq<char>>> {
    match why_not {
        None => None,
        Some(None) => Some(None),
        Some(Some(w)) => Some(Some(w@)),
    }
}

/// The transport row for a selection: `why_not` is `None` with no service
/// selected, `Some(None)` when the selected service can play and
/// `Some(Some(reason))` when it cannot. Play is offered only for a
/// selection that can play and only while nothing plays.
pub fn transport_row(why_not: Option<Option<&str>>, playing: bool) -> (row: TransportRow)
    ensures
        row.play_enabled == (why_not == Some(None::<&str>) && !playing),
        row.play_hint@ == play_hint_of(reason_view(why_not)),
        row.idle_note@ == idle_note_of(reason_view(why_not)),
{
    let mut hint = String::new();
    let (enabled, note) = match why_not {
        None => {
            push_str(&mut hint, "click a service in the list below first");
            (false, "audio off - select a service")
        },
        Some(Some(why)) => {
            push_str(&mut hint, "cannot play: ");
            push_str(&mut hint, why);
            (false, "this service cannot play")
        },
        Some(None) => {
            push_str(&mut hint, "playing");
            (!playing, "audio off - press Play")
        },
    };
    TransportRow { play_enabled: enabled, play_hint: hint, idle_note: note }
}

} // verus!
