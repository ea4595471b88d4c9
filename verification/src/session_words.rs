//! The words a saved session writes for the scope's modes. A session file
//! is a script, so each mode is written as the word the script grammar
//! reads back.

use vstd::prelude::*;
use vstd::string::*;
use crate::shortcuts::{Acquisition, Coupling, Slope, Sweep, TraceMode};

verus! {

/// A pulse-width or slope trigger's condition: the polarity of the pulse
/// and how its width compares with the set width.
#[derive(Debug, Clone, Copy, PartialEq, Eq, Structural)]
pub enum PulseCondition {
    PositiveGreater,
    PositiveEqual,
    PositiveLess,
    NegativeGreater,
    NegativeEqual,
    NegativeLess,
}

/// The script word for a sweep mode.
pub open spec fn sweep_word(s: Sweep) -> Seq<char> {
    match s {
        Sweep::Auto => "auto"@,
        Sweep::Normal => "normal"@,
        Sweep::Single => "single"@,
    }
}

/// The script word for a sweep mode.
pub fn sweep_name(s: Sweep) -> (w: &'static str)
    ensures
        w@ == sweep_word(s),
{
    match s {
        Sweep::Auto => "auto",
        Sweep::Normal => "normal",
        Sweep::Single => "single",
    }
}

/// The polarity word (`pos`/`neg`) and comparison word (`gt`/`eq`/`lt`) of
/// a pulse condition.
pub open spec fn condition_pair(c: PulseCondition) -> (Seq<char>, Seq<char>) {
    match c {
        PulseCondition::PositiveGreater => ("pos"@, "gt"@),
        PulseCondition::PositiveEqual => ("pos"@, "eq"@),
        PulseCondition::PositiveLess => ("pos"@, "lt"@),
        PulseCondition::NegativeGreater => ("neg"@, "gt"@),
        PulseCondition::NegativeEqual => ("neg"@, "eq"@),
        PulseCondition::NegativeLess => ("neg"@, "lt"@),
    }
}

/// The two script words of a pulse condition.
pub fn condition_words(c: PulseCondition) -> (w: (&'static str, &'static str))
    ensures
        (w.0@, w.1@) == condition_pair(c),
{
    match c {
        PulseCondition::PositiveGreater => ("pos", "gt"),
        PulseCondition::PositiveEqual => ("pos", "eq"),
        PulseCondition::PositiveLess => ("pos", "lt"),
        PulseCondition::NegativeGreater => ("neg", "gt"),
        PulseCondition::NegativeEqual => ("neg", "eq"),
        PulseCondition::NegativeLess => ("neg", "lt"),
    }
}

/// The script word for the user's acquisition choice; an average of other
/// than 4 or 64 acquisitions is written as the 16 the ladder offers.
pub open spec fn acquisition_word(a: Acquisition) -> Seq<char> {
    match a {
        Acquisition::Sample => "sample"@,
        Acquisition::Peak => "peak"@,
        Acquisition::Average(n) => if n == 4 {
            "avg4"@
        } else if n == 64 {
            "avg64"@
        } else {
            "avg16"@
        },
    }
}

/// The script word for the user's acquisition choice.
pub fn acquisition_name(a: Acquisition) -> (w: &'static str)
    ensures
        w@ == acquisition_word(a),
{
    match a {
        Acquisition::Sample => "sample",
        Acquisition::Peak => "peak",
        Acquisition::Average(n) => if n == 4 {
            "avg4"
        } else if n == 64 {
            "avg64"
        } else {
            "avg16"
        },
    }
}

/// The script word for a coupling.
pub open spec fn coupling_word(c: Coupling) -> Seq<char> {
    match c {
        Coupling::Dc => "dc"@,
        Coupling::Ac => "ac"@,
        Coupling::Gnd => "gnd"@,
    }
}

/// The script word for a coupling.
pub fn coupling_name(c: Coupling) -> (w: &'static str)
    ensures
        w@ == coupling_word(c),
{
    match c {
        Coupling::Dc => "dc",
        Coupling::Ac => "ac",
        Coupling::Gnd => "gnd",
    }
}

/// The script word for a trigger edge.
pub open spec fn slope_word(s: Slope) -> Seq<char> {
    match s {
        Slope::Rising => "rising"@,
        Slope::Falling => "falling"@,
    }
}

/// The script word for a trigger edge.
pub fn slope_name(s: Slope) -> (w: &'static str)
    ensures
        w@ == slope_word(s),
{
    match s {
        Slope::Rising => "rising",
        Slope::Falling => "falling",
    }
}

/// The script word for a trace mode.
pub open spec fn trace_mode_word(m: TraceMode) -> Seq<char> {
    match m {
        TraceMode::Vectors => "vectors"@,
        TraceMode::Dots => "dots"@,
        TraceMode::Xy => "xy"@,
    }
}

/// The script word for a trace mode.
pub fn trace_mode_name(m: TraceMode) -> (w: &'static str)
    ensures
        w@ == trace_mode_word(m),
{
    match m {
        TraceMode::Vectors => "vectors",
        TraceMode::Dots => "dots",
        TraceMode::Xy => "xy",
    }
}

/// How the script grammar reads a coupling word: `dc`, `ac` or `gnd`.
pub open spec fn read_coupling(w: Seq<char>) -> Option<Coupling> {
    if w == "dc"@ {
        Some(Coupling::Dc)
    } else if w == "ac"@ {
        Some(Coupling::Ac)
    } else if w == "gnd"@ {
        Some(Coupling::Gnd)
    } else {
        None
    }
}

/// How the script grammar reads a sweep word.
pub open spec fn read_sweep(w: Seq<char>) -> Option<Sweep> {
    if w == "auto"@ {
        Some(Sweep::Auto)
    } else if w == "normal"@ {
        Some(Sweep::Normal)
    } else if w == "single"@ {
        Some(Sweep::Single)
    } else {
        None
    }
}

/// How the script grammar reads an edge word.
pub open spec fn read_slope(w: Seq<char>) -> Option<Slope> {
    if w == "rising"@ {
        Some(Slope::Rising)
    } else if w == "falling"@ {
        Some(Slope::Falling)
    } else {
        None
    }
}

/// How the script grammar reads a trace-mode word.
pub open spec fn read_trace_mode(w: Seq<char>) -> Option<TraceMode> {
    if w == "vectors"@ {
        Some(TraceMode::Vectors)
    } else if w == "dots"@ {
        Some(TraceMode::Dots)
    } else if w == "xy"@ {
        Some(TraceMode::Xy)
    } else {
        None
    }
}

/// How the script grammar reads an acquisition word: the averages by the
/// count they name.
pub open spec fn read_acquisition(w: Seq<char>) -> Option<Acquisition> {
    if w == "sample"@ {
        Some(Acquisition::Sample)
    } else if w == "peak"@ {
        Some(Acquisition::Peak)
    } else if w == "avg4"@ {
        Some(Acquisition::Average(4))
    } else if w == "avg16"@ {
        Some(Acquisition::Average(16))
    } else if w == "avg64"@ {
        Some(Acquisition::Average(64))
    } else {
        None
    }
}

/// How the script grammar reads a pulse condition: `pos`/`neg`, then
/// `gt`/`eq`/`lt`.
pub open spec fn read_condition(polarity: Seq<char>, compare: Seq<char>) -> Option<PulseCondition> {
    if polarity == "pos"@ {
        if compare == "gt"@ {
            Some(PulseCondition::PositiveGreater)
        } else if compare == "eq"@ {
            Some(PulseCondition::PositiveEqual)
        } else if compare == "lt"@ {
            Some(PulseCondition::PositiveLess)
        } else {
            None
        }
    } else if polarity == "neg"@ {
        if compare == "gt"@ {
            Some(PulseCondition::NegativeGreater)
        } else if compare == "eq"@ {
            Some(PulseCondition::NegativeEqual)
        } else if compare == "lt"@ {
            Some(PulseCondition::NegativeLess)
        } else {
            None
        }
    } else {
        None
    }
}

/// **A saved session reloads as it was saved.** The word written for each
/// mode is the word the script grammar reads back as that same mode: a
/// coupling, sweep, edge, trace mode or pulse condition comes back
/// unchanged, and an acquisition comes back as itself whenever it is one the
/// ladder offers (sample, peak, or an average of 4, 16 or 64).
pub proof fn lemma_session_words_read_back(
    c: Coupling,
    s: Sweep,
    e: Slope,
    m: TraceMode,
    a: Acquisition,
    p: PulseCondition,
)
    ensures
        read_coupling(coupling_word(c)) == Some(c),
        read_sweep(sweep_word(s)) == Some(s),
        read_slope(slope_word(e)) == Some(e),
        read_trace_mode(trace_mode_word(m)) == Some(m),
        read_condition(condition_pair(p).0, condition_pair(p).1) == Some(p),
        (a matches Acquisition::Average(n) ==> n == 4 || n == 16 || n == 64) ==> read_acquisition(
            acquisition_word(a),
        ) == Some(a),
{
    reveal_strlit("dc");
    reveal_strlit("ac");
    reveal_strlit("gnd");
    reveal_strlit("auto");
    reveal_strlit("normal");
    reveal_strlit("single");
    reveal_strlit("rising");
    reveal_strlit("falling");
    reveal_strlit("vectors");
    reveal_strlit("dots");
    reveal_strlit("xy");
    reveal_strlit("sample");
    reveal_strlit("peak");
    reveal_strlit("avg4");
    reveal_strlit("avg16");
    reveal_strlit("avg64");
    reveal_strlit("pos");
    reveal_strlit("neg");
    reveal_strlit("gt");
    reveal_strlit("eq");
    reveal_strlit("lt");
    assert("dc"@[0] != "ac"@[0] && "dc"@[0] != "gnd"@[0] && "ac"@[0] != "gnd"@[0]);
    assert("auto"@[0] != "normal"@[0] && "auto"@[0] != "single"@[0] && "normal"@[0]
        != "single"@[0]);
    assert("rising"@[0] != "falling"@[0]);
    assert("vectors"@[0] != "dots"@[0] && "vectors"@[0] != "xy"@[0] && "dots"@[0] != "xy"@[0]);
    assert("sample"@[0] != "peak"@[0] && "sample"@[0] != "avg4"@[0] && "peak"@[0] != "avg4"@[0]);
    assert("sample"@[0] != "avg16"@[0] && "sample"@[0] != "avg64"@[0]);
    assert("peak"@[0] != "avg16"@[0] && "peak"@[0] != "avg64"@[0]);
    assert("avg4"@.len() != "avg16"@.len() && "avg4"@.len() != "avg64"@.len());
    assert("avg16"@[4] != "avg64"@[4]);
    assert("pos"@[0] != "neg"@[0]);
    assert("gt"@[0] != "eq"@[0] && "gt"@[0] != "lt"@[0] && "eq"@[0] != "lt"@[0]);
}

} // verus!
