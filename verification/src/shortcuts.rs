//! Keyboard shortcuts, each homed in the workspace whose controls it drives.
//!
//! A shortcut acts only in its own workspace: the scope keys edit the scope
//! configuration or send scope commands down the link, and while the SDR
//! workspace is up that link is the radio's. Every binding therefore names
//! its [`Home`], and [`fire`] picks only the bindings whose home is the
//! active workspace (or [`Home::Global`]). The bindings are the one table
//! [`shortcuts`] returns; there is no other place to bind a key.
//!
//! The modes the scope keys step through are here too, as data: the slope,
//! sweep, acquisition, coupling and trace-mode cycles.

use vstd::prelude::*;

verus! {

/// The workspace a shortcut belongs to.
#[derive(Debug, Clone, Copy, PartialEq, Eq, Structural)]
pub enum Home {
    Scope,
    Sdr,
    Global,
}

/// Whether a binding homed in `home` may act while `workspace` is up.
pub open spec fn acts(home: Home, workspace: Home) -> bool {
    home == Home::Global || home == workspace
}

impl Home {
    /// The workspace on screen now.
    pub fn active(sdr_active: bool) -> (h: Home)
        ensures
            h == (if sdr_active {
                Home::Sdr
            } else {
                Home::Scope
            }),
    {
        if sdr_active {
            Home::Sdr
        } else {
            Home::Scope
        }
    }

    /// Whether a binding homed here may act while `workspace` is up.
    pub fn acts_in(self, workspace: Home) -> (b: bool)
        ensures
            b == acts(self, workspace),
    {
        self == Home::Global || self == workspace
    }
}

/// The keys the bindings use.
#[derive(Debug, Clone, Copy, PartialEq, Eq, Structural)]
pub enum Key {
    Space,
    ArrowUp,
    ArrowDown,
    ArrowRight,
    ArrowLeft,
    Period,
    Comma,
    KeyS,
    KeyN,
    KeyM,
    KeyC,
    BracketRight,
    BracketLeft,
    KeyF,
    KeyA,
    KeyH,
    KeyE,
    KeyX,
}

/// What a scope key does.
#[derive(Debug, Clone, Copy, PartialEq, Eq, Structural)]
pub enum ScopeAction {
    /// Run/stop acquisition.
    RunStop,
    /// CH1 volts/div one rung up or down the ladder.
    VoltsUp,
    VoltsDown,
    /// Time base one rung faster (zoom in) or slower.
    TimeFaster,
    TimeSlower,
    /// Trigger level one CH1 division up or down.
    TriggerUp,
    TriggerDown,
    /// Rising ↔ falling edge.
    ToggleSlope,
    /// Auto → normal → single.
    CycleSweep,
    /// Sample → peak → average 4/16/64.
    CycleAcquisition,
    /// DC → AC → GND.
    CycleCoupling,
    /// CH1 vertical offset up or down.
    OffsetUp,
    OffsetDown,
    ForceTrigger,
    AutoSet,
    /// Default zoom and centre position.
    GoHome,
    CyclePersistence,
    /// Vectors → dots → XY.
    CycleTraceMode,
}

/// One key binding.
#[derive(Debug, Clone, Copy, PartialEq, Eq)]
pub struct Shortcut {
    pub key: Key,
    pub home: Home,
    pub what: &'static str,
    pub action: ScopeAction,
}

/// The keys and actions of the table, in order; every binding is homed in
/// the scope workspace.
pub open spec fn bindings() -> Seq<(Key, ScopeAction)> {
    seq![
        (Key::Space, ScopeAction::RunStop),
        (Key::ArrowUp, ScopeAction::VoltsUp),
        (Key::ArrowDown, ScopeAction::VoltsDown),
        (Key::ArrowRight, ScopeAction::TimeFaster),
        (Key::ArrowLeft, ScopeAction::TimeSlower),
        (Key::Period, ScopeAction::TriggerUp),
        (Key::Comma, ScopeAction::TriggerDown),
        (Key::KeyS, ScopeAction::ToggleSlope),
        (Key::KeyN, ScopeAction::CycleSweep),
        (Key::KeyM, ScopeAction::CycleAcquisition),
        (Key::KeyC, ScopeAction::CycleCoupling),
        (Key::BracketRight, ScopeAction::OffsetUp),
        (Key::BracketLeft, ScopeAction::OffsetDown),
        (Key::KeyF, ScopeAction::ForceTrigger),
        (Key::KeyA, ScopeAction::AutoSet),
        (Key::KeyH, ScopeAction::GoHome),
        (Key::KeyE, ScopeAction::CyclePersistence),
        (Key::KeyX, ScopeAction::CycleTraceMode),
    ]
}

/// How the table describes an action.
pub open spec fn describe(a: ScopeAction) -> Seq<char> {
    match a {
        ScopeAction::RunStop => "run/stop"@,
        ScopeAction::VoltsUp => "CH1 volts/div up"@,
        ScopeAction::VoltsDown => "CH1 volts/div down"@,
        ScopeAction::TimeFaster => "time base faster"@,
        ScopeAction::TimeSlower => "time base slower"@,
        ScopeAction::TriggerUp => "trigger level up"@,
        ScopeAction::TriggerDown => "trigger level down"@,
        ScopeAction::ToggleSlope => "toggle trigger slope"@,
        ScopeAction::CycleSweep => "cycle sweep"@,
        ScopeAction::CycleAcquisition => "cycle acquisition"@,
        ScopeAction::CycleCoupling => "cycle CH1 coupling"@,
        ScopeAction::OffsetUp => "CH1 offset up"@,
        ScopeAction::OffsetDown => "CH1 offset down"@,
        ScopeAction::ForceTrigger => "force trigger"@,
        ScopeAction::AutoSet => "auto-set"@,
        ScopeAction::GoHome => "home"@,
        ScopeAction::CyclePersistence => "cycle persistence"@,
        ScopeAction::CycleTraceMode => "cycle trace mode"@,
    }
}

fn scope(key: Key, what: &'static str, action: ScopeAction) -> (s: Shortcut)
    ensures
        s == (Shortcut { key, home: Home::Scope, what, action }),
{
    Shortcut { key, home: Home::Scope, what, action }
}

/// Whether a built binding is the table's `i`th.
pub open spec fn is_binding(s: Shortcut, i: int) -> bool {
    &&& s.key == bindings()[i].0
    &&& s.action == bindings()[i].1
    &&& s.home == Home::Scope
    &&& s.what@ == describe(s.action)
}

/// Every key binding, in the order the keys are checked.
pub fn shortcuts() -> (t: Vec<Shortcut>)
    ensures
        t@.len() == bindings().len(),
        forall|i: int| 0 <= i < t@.len() ==> is_binding(#[trigger] t@[i], i),
{
    let t = vec![
        scope(Key::Space, "run/stop", ScopeAction::RunStop),
        scope(Key::ArrowUp, "CH1 volts/div up", ScopeAction::VoltsUp),
        scope(Key::ArrowDown, "CH1 volts/div down", ScopeAction::VoltsDown),
        scope(Key::ArrowRight, "time base faster", ScopeAction::TimeFaster),
        scope(Key::ArrowLeft, "time base slower", ScopeAction::TimeSlower),
        scope(Key::Period, "trigger level up", ScopeAction::TriggerUp),
        scope(Key::Comma, "trigger level down", ScopeAction::TriggerDown),
        scope(Key::KeyS, "toggle trigger slope", ScopeAction::ToggleSlope),
        scope(Key::KeyN, "cycle sweep", ScopeAction::CycleSweep),
        scope(Key::KeyM, "cycle acquisition", ScopeAction::CycleAcquisition),
        scope(Key::KeyC, "cycle CH1 coupling", ScopeAction::CycleCoupling),
        scope(Key::BracketRight, "CH1 offset up", ScopeAction::OffsetUp),
        scope(Key::BracketLeft, "CH1 offset down", ScopeAction::OffsetDown),
        scope(Key::KeyF, "force trigger", ScopeAction::ForceTrigger),
        scope(Key::KeyA, "auto-set", ScopeAction::AutoSet),
        scope(Key::KeyH, "home", ScopeAction::GoHome),
        scope(Key::KeyE, "cycle persistence", ScopeAction::CyclePersistence),
        scope(Key::KeyX, "cycle trace mode", ScopeAction::CycleTraceMode),
    ];
    assert forall|i: int| 0 <= i < t@.len() implies is_binding(#[trigger] t@[i], i) by {
        assert(bindings().len() == 18);
    }
    t
}

/// Whether binding `b` fires this frame: its key is pressed and it may act
/// in the workspace that is up.
pub open spec fn fires(b: Shortcut, pressed: Seq<Key>, workspace: Home) -> bool {
    acts(b.home, workspace) && pressed.contains(b.key)
}

/// The positions of the bindings that fire, in table order.
pub open spec fn fired(bs: Seq<Shortcut>, pressed: Seq<Key>, workspace: Home) -> Seq<int>
    decreases bs.len(),
{
    if bs.len() == 0 {
        Seq::empty()
    } else {
        fired(bs.drop_last(), pressed, workspace) + (if fires(bs.last(), pressed, workspace) {
            seq![bs.len() - 1]
        } else {
            Seq::empty()
        })
    }
}

fn pressed_has(pressed: &[Key], k: Key) -> (b: bool)
    ensures
        b == pressed@.contains(k),
{
    let mut i: usize = 0;
    while i < pressed.len()
        invariant
            i <= pressed@.len(),
            forall|j: int| 0 <= j < i ==> pressed@[j] != k,
        decreases pressed.len() - i,
    {
        if pressed[i] == k {
            return true;
        }
        i = i + 1;
    }
    false
}

/// The bindings to run this frame, by position in `bindings`: every one
/// whose key is among `pressed` and which may act while `workspace` is up.
pub fn fire(bindings: &[Shortcut], pressed: &[Key], workspace: Home) -> (run: Vec<usize>)
    ensures
        run@.len() == fired(bindings@, pressed@, workspace).len(),
        forall|i: int|
            0 <= i < run@.len() ==> run@[i] as int == #[trigger] fired(
                bindings@,
                pressed@,
                workspace,
            )[i],
{
    let mut run: Vec<usize> = Vec::new();
    let mut i: usize = 0;
    while i < bindings.len()
        invariant
            i <= bindings@.len(),
            run@.len() == fired(bindings@.take(i as int), pressed@, workspace).len(),
            forall|j: int|
                0 <= j < run@.len() ==> run@[j] as int == #[trigger] fired(
                    bindings@.take(i as int),
                    pressed@,
                    workspace,
                )[j],
        decreases bindings.len() - i,
    {
        let b = bindings[i];
        let ghost before = run@;
        assert(bindings@.take(i + 1).drop_last() =~= bindings@.take(i as int));
        assert(bindings@.take(i + 1).last() == b);
        if b.home.acts_in(workspace) && pressed_has(pressed, b.key) {
            run.push(i);
        }
        i = i + 1;
    }
    assert(bindings@.take(bindings@.len() as int) =~= bindings@);
    run
}

/// Every binding that fires may act in the workspace that is up: a binding
/// acts only in its own workspace.
pub proof fn lemma_a_binding_acts_only_at_home(bs: Seq<Shortcut>, pressed: Seq<Key>, workspace: Home)
    ensures
        forall|i: int|
            0 <= i < fired(bs, pressed, workspace).len() ==> {
                let k = #[trigger] fired(bs, pressed, workspace)[i];
                0 <= k < bs.len() && acts(bs[k].home, workspace) && pressed.contains(bs[k].key)
            },
    decreases bs.len(),
{
    if bs.len() > 0 {
        lemma_a_binding_acts_only_at_home(bs.drop_last(), pressed, workspace);
        let f = fired(bs, pressed, workspace);
        let g = fired(bs.drop_last(), pressed, workspace);
        assert forall|i: int| 0 <= i < f.len() implies {
            let k = #[trigger] f[i];
            0 <= k < bs.len() && acts(bs[k].home, workspace) && pressed.contains(bs[k].key)
        } by {
            if i < g.len() {
                assert(f[i] == g[i]);
                assert(bs.drop_last()[g[i]] == bs[g[i]]);
            }
        }
    }
}

/// **Every binding that may act fires, once, in table order.** A binding
/// whose key is pressed and which may act in the workspace that is up is
/// among those fired, and the fired positions run strictly upward, so none
/// fires twice.
pub proof fn lemma_every_live_binding_fires(bs: Seq<Shortcut>, pressed: Seq<Key>, workspace: Home)
    ensures
        forall|k: int|
            0 <= k < bs.len() && fires(#[trigger] bs[k], pressed, workspace) ==> fired(
                bs,
                pressed,
                workspace,
            ).contains(k),
        forall|i: int, j: int|
            0 <= i < j < fired(bs, pressed, workspace).len() ==> #[trigger] fired(
                bs,
                pressed,
                workspace,
            )[i] < #[trigger] fired(bs, pressed, workspace)[j],
        forall|i: int|
            0 <= i < fired(bs, pressed, workspace).len() ==> 0 <= #[trigger] fired(
                bs,
                pressed,
                workspace,
            )[i] < bs.len(),
    decreases bs.len(),
{
    if bs.len() > 0 {
        let init = bs.drop_last();
        lemma_every_live_binding_fires(init, pressed, workspace);
        let f = fired(bs, pressed, workspace);
        let g = fired(init, pressed, workspace);
        assert forall|i: int| 0 <= i < g.len() implies f[i] == g[i] by {}
        assert forall|k: int| 0 <= k < bs.len() && fires(#[trigger] bs[k], pressed, workspace)
            implies f.contains(k) by {
            if k < bs.len() - 1 {
                assert(init[k] == bs[k]);
                assert(g.contains(k));
                let i = choose|i: int| 0 <= i < g.len() && g[i] == k;
                assert(f[i] == k);
            } else {
                assert(f[g.len() as int] == k);
            }
        }
        assert forall|i: int, j: int| 0 <= i < j < f.len() implies #[trigger] f[i] < #[trigger] f[j] by {
            if j < g.len() {
                assert(f[i] == g[i] && f[j] == g[j]);
            } else {
                assert(f[i] == g[i]);
            }
        }
    }
}

/// A global binding acts everywhere; a homed one only at home.
pub proof fn lemma_homes()
    ensures
        forall|w: Home| acts(Home::Global, w),
        forall|w: Home| acts(w, w),
        !acts(Home::Scope, Home::Sdr),
        !acts(Home::Sdr, Home::Scope),
{
}

/// Every key is bound once.
pub proof fn lemma_every_key_is_bound_once()
    ensures
        forall|i: int, j: int|
            0 <= i < j < bindings().len() ==> #[trigger] bindings()[i].0 != #[trigger] bindings()[j].0,
{
    let b = bindings();
    assert forall|i: int, j: int| 0 <= i < j < b.len() implies #[trigger] b[i].0 != #[trigger] b[j].0 by {
        assert(b.len() == 18);
    }
}

/// A control the paired keys step one way or the other.
pub enum Knob {
    Volts,
    Time,
    Trigger,
    Offset,
}

/// The control a key steps and whether it steps it up, for the four key
/// pairs laid out as a bench scope's: up/down arrows are CH1's volts/div,
/// right/left the time base (right zooms in), `.`/`,` the trigger level and
/// `]`/`[` the CH1 offset.
pub open spec fn key_step(k: Key) -> Option<(Knob, bool)> {
    match k {
        Key::ArrowUp => Some((Knob::Volts, true)),
        Key::ArrowDown => Some((Knob::Volts, false)),
        Key::ArrowRight => Some((Knob::Time, true)),
        Key::ArrowLeft => Some((Knob::Time, false)),
        Key::Period => Some((Knob::Trigger, true)),
        Key::Comma => Some((Knob::Trigger, false)),
        Key::BracketRight => Some((Knob::Offset, true)),
        Key::BracketLeft => Some((Knob::Offset, false)),
        _ => None,
    }
}

/// The control an action steps and whether it steps it up (faster, for
/// the time base).
pub open spec fn action_step(a: ScopeAction) -> Option<(Knob, bool)> {
    match a {
        ScopeAction::VoltsUp => Some((Knob::Volts, true)),
        ScopeAction::VoltsDown => Some((Knob::Volts, false)),
        ScopeAction::TimeFaster => Some((Knob::Time, true)),
        ScopeAction::TimeSlower => Some((Knob::Time, false)),
        ScopeAction::TriggerUp => Some((Knob::Trigger, true)),
        ScopeAction::TriggerDown => Some((Knob::Trigger, false)),
        ScopeAction::OffsetUp => Some((Knob::Offset, true)),
        ScopeAction::OffsetDown => Some((Knob::Offset, false)),
        _ => None,
    }
}

/// **Each key drives its documented action.** Every stepping key steps the
/// control it is laid out for, in its own direction (the up arrow raises
/// CH1's volts/div, the down arrow lowers it, and so on), and every other
/// key does what its letter says: space runs/stops, `S` the slope, `N` the
/// sweep, `M` the acquisition, `C` the coupling, `F` forces a trigger, `A`
/// auto-sets, `H` goes home, `E` the persistence, `X` the trace mode.
pub proof fn lemma_each_key_drives_its_documented_action()
    ensures
        forall|i: int|
            0 <= i < bindings().len() ==> key_step(#[trigger] bindings()[i].0) == action_step(
                bindings()[i].1,
            ),
        forall|i: int|
            0 <= i < bindings().len() ==> {
                let (k, a) = #[trigger] bindings()[i];
                &&& k == Key::ArrowUp ==> a == ScopeAction::VoltsUp
                &&& k == Key::ArrowDown ==> a == ScopeAction::VoltsDown
                &&& k == Key::ArrowRight ==> a == ScopeAction::TimeFaster
                &&& k == Key::ArrowLeft ==> a == ScopeAction::TimeSlower
                &&& k == Key::Space ==> a == ScopeAction::RunStop
                &&& k == Key::KeyS ==> a == ScopeAction::ToggleSlope
                &&& k == Key::KeyN ==> a == ScopeAction::CycleSweep
                &&& k == Key::KeyM ==> a == ScopeAction::CycleAcquisition
                &&& k == Key::KeyC ==> a == ScopeAction::CycleCoupling
                &&& k == Key::KeyF ==> a == ScopeAction::ForceTrigger
                &&& k == Key::KeyA ==> a == ScopeAction::AutoSet
                &&& k == Key::KeyH ==> a == ScopeAction::GoHome
                &&& k == Key::KeyE ==> a == ScopeAction::CyclePersistence
                &&& k == Key::KeyX ==> a == ScopeAction::CycleTraceMode
            },
{
    let b = bindings();
    assert(b.len() == 18);
}

/// No scope key does anything while the SDR workspace is up.
pub proof fn lemma_scope_keys_are_quiet_in_sdr(pressed: Seq<Key>, t: Seq<Shortcut>)
    requires
        t.len() == bindings().len(),
        forall|i: int| 0 <= i < t.len() ==> is_binding(#[trigger] t[i], i),
    ensures
        fired(t, pressed, Home::Sdr).len() == 0,
{
    lemma_a_binding_acts_only_at_home(t, pressed, Home::Sdr);
    if fired(t, pressed, Home::Sdr).len() > 0 {
        let k = fired(t, pressed, Home::Sdr)[0];
        assert(is_binding(t[k], k));
    }
}

/// Trigger edge.
#[derive(Debug, Clone, Copy, PartialEq, Eq, Structural)]
pub enum Slope {
    Rising,
    Falling,
}

/// Trigger sweep mode.
#[derive(Debug, Clone, Copy, PartialEq, Eq, Structural)]
pub enum Sweep {
    Auto,
    Normal,
    Single,
}

/// Acquisition mode; `Average(n)` averages `n` acquisitions.
#[derive(Debug, Clone, Copy, PartialEq, Eq, Structural)]
pub enum Acquisition {
    Sample,
    Peak,
    Average(u32),
}

/// Input coupling.
#[derive(Debug, Clone, Copy, PartialEq, Eq, Structural)]
pub enum Coupling {
    Dc,
    Ac,
    Gnd,
}

/// How the trace is drawn.
#[derive(Debug, Clone, Copy, PartialEq, Eq, Structural)]
pub enum TraceMode {
    Vectors,
    Dots,
    Xy,
}

/// `S`: the other edge.
pub fn toggle_slope(s: Slope) -> (t: Slope)
    ensures
        t == (match s {
            Slope::Rising => Slope::Falling,
            Slope::Falling => Slope::Rising,
        }),
{
    match s {
        Slope::Rising => Slope::Falling,
        Slope::Falling => Slope::Rising,
    }
}

/// The sweep after `s` in the `N` cycle.
pub open spec fn sweep_after(s: Sweep) -> Sweep {
    match s {
        Sweep::Auto => Sweep::Normal,
        Sweep::Normal => Sweep::Single,
        Sweep::Single => Sweep::Auto,
    }
}

/// `N`: the next sweep mode, and whether acquisition runs after it: arming
/// single (re)starts acquisition, the other modes leave it as it was.
pub fn cycle_sweep(s: Sweep, running: bool) -> (r: (Sweep, bool))
    ensures
        r.0 == sweep_after(s),
        r.1 == (running || sweep_after(s) == Sweep::Single),
{
    let next = match s {
        Sweep::Auto => Sweep::Normal,
        Sweep::Normal => Sweep::Single,
        Sweep::Single => Sweep::Auto,
    };
    (next, running || next == Sweep::Single)
}

/// The acquisition after `a` in the `M` cycle.
pub open spec fn acquisition_after(a: Acquisition) -> Acquisition {
    match a {
        Acquisition::Sample => Acquisition::Peak,
        Acquisition::Peak => Acquisition::Average(4),
        Acquisition::Average(n) => if n == 4 {
            Acquisition::Average(16)
        } else if n == 16 {
            Acquisition::Average(64)
        } else {
            Acquisition::Sample
        },
    }
}

/// `M`: the next acquisition mode.
pub fn cycle_acquisition(a: Acquisition) -> (b: Acquisition)
    ensures
        b == acquisition_after(a),
{
    match a {
        Acquisition::Sample => Acquisition::Peak,
        Acquisition::Peak => Acquisition::Average(4),
        Acquisition::Average(n) => if n == 4 {
            Acquisition::Average(16)
        } else if n == 16 {
            Acquisition::Average(64)
        } else {
            Acquisition::Sample
        },
    }
}

/// The coupling after `c` in the `C` cycle.
pub open spec fn coupling_after(c: Coupling) -> Coupling {
    match c {
        Coupling::Dc => Coupling::Ac,
        Coupling::Ac => Coupling::Gnd,
        Coupling::Gnd => Coupling::Dc,
    }
}

/// `C`: the next CH1 coupling.
pub fn cycle_coupling(c: Coupling) -> (d: Coupling)
    ensures
        d == coupling_after(c),
{
    match c {
        Coupling::Dc => Coupling::Ac,
        Coupling::Ac => Coupling::Gnd,
        Coupling::Gnd => Coupling::Dc,
    }
}

/// The trace mode after `m` in the `X` cycle.
pub open spec fn trace_mode_after(m: TraceMode) -> TraceMode {
    match m {
        TraceMode::Vectors => TraceMode::Dots,
        TraceMode::Dots => TraceMode::Xy,
        TraceMode::Xy => TraceMode::Vectors,
    }
}

/// `X`: the next trace mode.
pub fn cycle_trace_mode(m: TraceMode) -> (n: TraceMode)
    ensures
        n == trace_mode_after(m),
{
    match m {
        TraceMode::Vectors => TraceMode::Dots,
        TraceMode::Dots => TraceMode::Xy,
        TraceMode::Xy => TraceMode::Vectors,
    }
}

/// `E`: the rung after the current one on a ladder of `len` rungs, wrapping
/// to the first; a setting that is not on the ladder counts as the first
/// rung.
pub fn next_rung(current: Option<usize>, len: usize) -> (i: usize)
    requires
        len > 0,
        current matches Some(c) ==> c < len,
    ensures
        i == (match current {
            Some(c) => c as int,
            None => 0int,
        } + 1) % (len as int),
{
    let c = match current {
        Some(c) => c,
        None => 0,
    };
    (c + 1) % len
}

/// Each cycle visits every mode and comes back: three presses of `N`, `C`
/// or `X` and two of `S` return to the start, and five presses of `M` take
/// sampling through peak and the three averages back to sampling.
pub proof fn lemma_cycles_come_back(s: Sweep, c: Coupling, m: TraceMode)
    ensures
        sweep_after(sweep_after(sweep_after(s))) == s,
        coupling_after(coupling_after(coupling_after(c))) == c,
        trace_mode_after(trace_mode_after(trace_mode_after(m))) == m,
        acquisition_after(Acquisition::Sample) == Acquisition::Peak,
        acquisition_after(Acquisition::Peak) == Acquisition::Average(4),
        acquisition_after(Acquisition::Average(4)) == Acquisition::Average(16),
        acquisition_after(Acquisition::Average(16)) == Acquisition::Average(64),
        acquisition_after(Acquisition::Average(64)) == Acquisition::Sample,
{
}

} // verus!
