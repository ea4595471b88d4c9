//! The DAB-derived state, and the one way it is cleared.
//!
//! Everything here exists because a DAB signal was decoded. When the signal
//! it was derived from is gone (the hardware window moved, the stream
//! stopped, the instrument switched, the receiver was cycled) all of it has
//! to go together, or the dock, `get dab` and the playback transport keep
//! naming a service that is not there.
//!
//! The state is generic over what its owner plugs in: the receiver `R`, the
//! per-sub-channel PAD parser `P`, the playback worker `A` and the clock `T`
//! frame times are kept on. The receiver survives a clear, reset in place
//! (it is the thing that re-acquires); everything derived goes. The device-facing half of a clear (flushing the sink so a stopped
//! service does not play on) belongs to whoever owns the audio device, so
//! the clears report whether a transport was stopped rather than reaching
//! for it.

use std::collections::BTreeMap;
use vstd::prelude::*;
use crate::actions::{DabChannel, DabVerb};
use crate::dab_gone::{Gone, GoneCause, LostEnsemble};
use crate::ingest::{after_frame, FrameCounters};
use crate::stream_spec::{
    find_service, find_service_in, play_attempt, select_service, selection, spec_for,
    table_value, EnsembleTable, StreamPlan,
};

verus! {

/// A coarse upper bound on one DAB transmission frame, in samples at
/// 2.048 MS/s, used only to size the splice tolerance.
pub const FRAME_SAMPLES_HINT: i64 = 196_608;

/// How far a frame's first sample may sit from where the previous frame
/// ended before the two are treated as not contiguous: four transmission
/// frames, because frame times are derived from arrival and run late by up
/// to one poll.
pub const JITTER_TOLERANCE_SAMPLES: i64 = 786_432;

/// What a clear asks of the DAB receiver. Nothing is claimed of what either
/// call leaves inside it: the state only needs the receiver to stay where it
/// is, cleared in place.
pub trait Receiver {
    /// Forget the lock, the table and the old window.
    fn reset(&mut self);

    /// The stream stopped: drop the lock, keeping the cumulative counters.
    fn no_input(&mut self);
}

/// The DAB consumer's state: the receiver, its timing grid, the selection
/// and everything hanging off it.
pub struct DabState<R, P, A, T> {
    /// The DAB receiver, present while `sdr dab on` is in force.
    pub rx: Option<R>,
    /// First sample index the next frame should carry: frames whose
    /// timestamps do not continue from it are spliced, not contiguous.
    pub next_sample: Option<i64>,
    /// Time of the last complex IQ frame fed to the receiver, or `None`
    /// when none has arrived since it started.
    pub last_frame_at: Option<T>,
    /// PAD/DLS parser per MSC sub-channel, keyed by `SubChId`.
    pub pad: BTreeMap<u8, P>,
    /// Selected DAB service (`SId`), or `None`.
    pub service: Option<u16>,
    /// The playback worker while the selected service plays.
    pub audio: Option<A>,
    /// The last `sdr dab play` refusal, shown by the DAB panel.
    pub play_error: Option<String>,
    /// What the receiver last lost, and when. Not signal-derived state: it
    /// is the record that the signal went, so `no_input` writes it rather
    /// than clearing it, while a reset forgets it with everything else.
    pub gone: Option<Gone<T>>,
}

/// The state as the contracts see it: the parsers as a map, the refusal as
/// its characters.
pub struct DabView<R, P, A, T> {
    pub rx: Option<R>,
    pub next_sample: Option<i64>,
    pub last_frame_at: Option<T>,
    pub pad: Map<u8, P>,
    pub service: Option<u16>,
    pub audio: Option<A>,
    pub play_error: Option<Seq<char>>,
    pub gone: Option<Gone<T>>,
}

/// Whether a frame starting at `start` lies further from the expected next
/// sample than the jitter tolerance.
pub open spec fn jumped(next_sample: Option<i64>, start: i64) -> bool {
    match next_sample {
        Some(expected) => start - expected > JITTER_TOLERANCE_SAMPLES || expected - start
            > JITTER_TOLERANCE_SAMPLES,
        None => false,
    }
}

/// The loss record after one push of IQ: a lock answers every earlier loss;
/// a table that was held going in and is not held now expired at `now`; a
/// frame arriving ends a "no input" record; anything else stays.
pub open spec fn next_gone<T>(
    locked: bool,
    held: Option<LostEnsemble>,
    gone: Option<Gone<T>>,
    now: T,
) -> Option<Gone<T>> {
    if locked {
        None
    } else if held is Some {
        Some(Gone { cause: GoneCause::Expired, at: now, ensemble: held })
    } else {
        match gone {
            Some(g) => if g.cause == GoneCause::NoInput {
                None
            } else {
                Some(g)
            },
            None => None,
        }
    }
}

impl<R, P, A, T> DabView<R, P, A, T> {
    /// True while any signal-derived state is still held.
    pub open spec fn holds_derived(self) -> bool {
        ||| self.next_sample is Some
        ||| self.last_frame_at is Some
        ||| !self.pad.is_empty()
        ||| self.service is Some
        ||| self.audio is Some
        ||| self.play_error is Some
    }

    /// Nothing derived, with the given receiver and loss record.
    pub open spec fn fresh(rx: Option<R>, gone: Option<Gone<T>>) -> Self {
        DabView {
            rx,
            next_sample: None,
            last_frame_at: None,
            pad: Map::empty(),
            service: None,
            audio: None,
            play_error: None,
            gone,
        }
    }

    /// After a reset: only the receiver is left.
    pub open spec fn after_reset(self) -> Self {
        Self::fresh(self.rx, None)
    }

    /// The ensemble a loss of input names: the one held now, or the one an
    /// earlier expiry already recorded.
    pub open spec fn lost_ensemble(self, held: Option<LostEnsemble>) -> Option<LostEnsemble> {
        match held {
            Some(e) => Some(e),
            None => match self.gone {
                Some(g) => g.ensemble,
                None => None,
            },
        }
    }

    /// After the stream stopped: the receiver, and a `NoInput` record at
    /// the time of the last frame when one had arrived.
    pub open spec fn after_no_input(self, held: Option<LostEnsemble>) -> Self {
        Self::fresh(
            self.rx,
            match self.last_frame_at {
                Some(at) => Some(
                    Gone { cause: GoneCause::NoInput, at, ensemble: self.lost_ensemble(held) },
                ),
                None => None,
            },
        )
    }

    /// After the selection was dropped: the receiver, the timing grid and
    /// the loss record stay.
    pub open spec fn after_forget(self) -> Self {
        DabView {
            rx: self.rx,
            next_sample: self.next_sample,
            last_frame_at: self.last_frame_at,
            pad: Map::empty(),
            service: None,
            audio: None,
            play_error: None,
            gone: self.gone,
        }
    }

    /// After a frame starting at `start` with `pairs` samples: the grid
    /// moves to its end.
    pub open spec fn after_frame(self, start: i64, pairs: i64) -> Self {
        DabView { next_sample: Some((start + pairs) as i64), ..self }
    }

    /// After a push of IQ, before any selection is dropped.
    pub open spec fn after_push(self, locked: bool, held: Option<LostEnsemble>, now: T) -> Self {
        DabView { gone: next_gone(locked, held, self.gone, now), ..self }
    }
}

/// The characters of an optional string.
pub open spec fn optional_text(s: Option<String>) -> Option<Seq<char>> {
    match s {
        Some(s) => Some(s@),
        None => None,
    }
}

impl<R, P, A, T> View for DabState<R, P, A, T> {
    type V = DabView<R, P, A, T>;

    open spec fn view(&self) -> DabView<R, P, A, T> {
        DabView {
            rx: self.rx,
            next_sample: self.next_sample,
            last_frame_at: self.last_frame_at,
            pad: self.pad@,
            service: self.service,
            audio: self.audio,
            play_error: optional_text(self.play_error),
            gone: self.gone,
        }
    }
}

impl<R, P, A, T> DabState<R, P, A, T> {
    fn fresh(rx: Option<R>, gone: Option<Gone<T>>) -> (s: Self)
        ensures
            s@ == DabView::<R, P, A, T>::fresh(rx, gone),
    {
        DabState {
            rx,
            next_sample: None,
            last_frame_at: None,
            pad: BTreeMap::new(),
            service: None,
            audio: None,
            play_error: None,
            gone,
        }
    }

    /// No receiver and nothing derived.
    pub fn new() -> (s: Self)
        ensures
            s@ == DabView::<R, P, A, T>::fresh(None, None),
    {
        Self::fresh(None, None)
    }

    /// True while a receiver is running (`sdr dab on`).
    pub fn on(&self) -> (b: bool)
        ensures
            b == self.rx is Some,
    {
        self.rx.is_some()
    }

    /// True while any signal-derived state is still held. `reset` and
    /// `no_input` both leave this false.
    pub fn holds_derived(&self) -> (b: bool)
        ensures
            b == self@.holds_derived(),
    {
        self.next_sample.is_some() || self.last_frame_at.is_some() || !self.pad.is_empty()
            || self.service.is_some() || self.audio.is_some() || self.play_error.is_some()
    }

    /// A complex IQ frame reached the receiver at `now`.
    pub fn note_arrival(&mut self, now: T)
        ensures
            final(self)@ == (DabView { last_frame_at: Some(now), ..old(self)@ }),
    {
        self.last_frame_at = Some(now);
    }

    /// Drop the selection, its parsers and playback, leaving the receiver,
    /// the timing grid and the loss record alone: used when the receiver's
    /// table expired under a selection while the stream itself still
    /// arrives.
    ///
    /// Returns whether a playback transport was stopped.
    pub fn forget_selection(&mut self) -> (played: bool)
        ensures
            final(self)@ == old(self)@.after_forget(),
            played == old(self).audio is Some,
    {
        let played = self.audio.is_some();
        self.pad = BTreeMap::new();
        self.service = None;
        self.audio = None;
        self.play_error = None;
        played
    }

    /// Note a frame of `pairs` IQ pairs whose first sample is `start`, after
    /// `dropped` pairs the producer reported lost. Returns whether the
    /// frame is spliced rather than contiguous: a counted drop, or a start
    /// further from the grid than the jitter tolerance. The grid moves to
    /// the frame's end either way.
    pub fn note_frame(&mut self, start: i64, pairs: i64, dropped: u64) -> (spliced: bool)
        requires
            i64::MIN <= start + pairs <= i64::MAX,
            old(self).next_sample matches Some(e) ==> i64::MIN < start - e <= i64::MAX,
        ensures
            spliced == (dropped > 0 || jumped(old(self).next_sample, start)),
            final(self)@ == old(self)@.after_frame(start, pairs),
    {
        let jumped = match self.next_sample {
            Some(expected) => {
                let d = start - expected;
                d > JITTER_TOLERANCE_SAMPLES || -d > JITTER_TOLERANCE_SAMPLES
            },
            None => false,
        };
        self.next_sample = Some(start + pairs);
        dropped > 0 || jumped
    }

    /// After the receiver took a push of IQ: record what the push did to
    /// the lock (`held` is the table it held going in, `locked` whether it
    /// holds one now, `now` the time of the last frame), and drop a
    /// selection that outlived its table, so no path keeps naming a
    /// service the table no longer holds.
    ///
    /// Returns whether a playback transport was stopped.
    pub fn track_lock(&mut self, locked: bool, held: Option<LostEnsemble>, now: T) -> (played:
        bool)
        ensures
            (!locked && old(self).service is Some) ==> final(self)@ == old(self)@.after_push(
                locked,
                held,
                now,
            ).after_forget() && played == old(self).audio is Some,
            !(!locked && old(self).service is Some) ==> final(self)@ == old(self)@.after_push(
                locked,
                held,
                now,
            ) && !played,
    {
        let gone = self.gone.take();
        self.gone = if locked {
            None
        } else if held.is_some() {
            Some(Gone { cause: GoneCause::Expired, at: now, ensemble: held })
        } else {
            match gone {
                Some(g) => if g.cause == GoneCause::NoInput {
                    None
                } else {
                    Some(g)
                },
                None => None,
            }
        };
        if !locked && self.service.is_some() {
            self.forget_selection()
        } else {
            false
        }
    }
}

impl<R: Receiver, P, A, T> DabState<R, P, A, T> {
    /// The receiver after a clear: the same one, reset in place.
    fn reset_receiver(rx: Option<R>) -> (out: Option<R>)
        ensures
            out is Some <==> rx is Some,
    {
        match rx {
            Some(mut r) => {
                r.reset();
                Some(r)
            },
            None => None,
        }
    }

    /// Forget everything derived from a signal that is gone: the lock, the
    /// timing grid, the selection, the DLS parsers, playback and the loss
    /// record, and reset the receiver in place. For a retune, a rate change
    /// or an instrument switch: the hardware moved, so the old table
    /// describes a different signal.
    ///
    /// Returns whether a playback transport was stopped, so the device's
    /// owner can flush the sink.
    pub fn reset(&mut self) -> (played: bool)
        ensures
            final(self)@ == (DabView { rx: final(self).rx, ..old(self)@.after_reset() }),
            final(self).rx is Some <==> old(self).rx is Some,
            played == old(self).audio is Some,
    {
        let played = self.audio.is_some();
        let rx = Self::reset_receiver(self.rx.take());
        *self = Self::fresh(rx, None);
        played
    }

    /// The frame stream stopped (a stopped backend or a disconnect). The
    /// lock, the table and the timing grid describe a stream that is no
    /// longer there, so they go now, and the receiver drops its lock; what
    /// went is recorded as a `NoInput` loss at the time of the last frame,
    /// naming `held` (the ensemble the receiver holds now, when it is
    /// locked) or else the ensemble an earlier expiry recorded.
    ///
    /// Returns whether a playback transport was stopped.
    pub fn no_input(&mut self, held: Option<LostEnsemble>) -> (played: bool)
        ensures
            final(self)@ == (DabView { rx: final(self).rx, ..old(self)@.after_no_input(held) }),
            final(self).rx is Some <==> old(self).rx is Some,
            played == old(self).audio is Some,
    {
        let ensemble = match held {
            Some(e) => Some(e),
            None => match self.gone.take() {
                Some(g) => g.ensemble,
                None => None,
            },
        };
        let gone = match self.last_frame_at.take() {
            Some(at) => Some(Gone { cause: GoneCause::NoInput, at, ensemble }),
            None => None,
        };
        let played = self.audio.is_some();
        let rx = match self.rx.take() {
            Some(mut r) => {
                r.no_input();
                Some(r)
            },
            None => None,
        };
        *self = Self::fresh(rx, gone);
        played
    }
}

/// The MSC sub-channel that carries the selected service's audio and PAD,
/// when a service is selected and the table signals one for it.
pub open spec fn selected_sub_channel(service: Option<u16>, table: Option<EnsembleTable>) -> Option<
    u8,
> {
    match (service, table) {
        (Some(sid), Some(t)) => match find_service(t.services@, sid) {
            Some(s) => s.sub_channel,
            None => None,
        },
        _ => None,
    }
}

impl<R, P, A, T> DabState<R, P, A, T> {
    /// The PAD parser of the selected service's sub-channel, the one whose
    /// DLS label the panel shows. `table` is the receiver's table while a
    /// receiver runs. `None` when nothing is selected, no table is held,
    /// the table signals no sub-channel for the service, or nothing has
    /// arrived on that sub-channel yet.
    pub fn dls_parser(&self, table: Option<&EnsembleTable>) -> (p: Option<&P>)
        ensures
            p == (match selected_sub_channel(self.service, table_value(table)) {
                Some(sub) => if self.pad@.contains_key(sub) {
                    Some(&self.pad@[sub])
                } else {
                    None
                },
                None => None,
            }),
    {
        broadcast use vstd::laws_cmp::group_laws_cmp;

        let sid = match self.service {
            Some(sid) => sid,
            None => return None,
        };
        let t = match table {
            Some(t) => t,
            None => return None,
        };
        let sub = match find_service_in(&t.services, sid) {
            Some(s) => match s.sub_channel {
                Some(sub) => sub,
                None => return None,
            },
            None => return None,
        };
        self.pad.get(&sub)
    }
}

/// Account for one arriving IQ frame: it is one more frame seen, whatever
/// the producer says was lost before it is a gap in the stream, and the
/// DAB state learns when the frame came.
pub fn record_frame<R, P, A, T>(
    counters: &mut FrameCounters,
    dab: &mut DabState<R, P, A, T>,
    dropped: u64,
    now: T,
)
    requires
        old(counters).frames_seen < u64::MAX,
        old(counters).dropped_pairs + dropped <= u64::MAX,
        dropped > 0 ==> old(counters).drop_events < u64::MAX,
    ensures
        *final(counters) == after_frame(*old(counters), dropped),
        final(dab)@ == (DabView { last_frame_at: Some(now), ..old(dab)@ }),
{
    counters.note_frame(dropped);
    dab.note_arrival(now);
}

/// What the receiver's owner does with the receiver after a verb.
#[derive(Debug, Clone, Copy, PartialEq, Eq, Structural)]
pub enum ReceiverOp {
    /// Leave it as it is.
    Keep,
    /// Put a fresh receiver in its place (`sdr dab on`).
    Build,
}

/// What the owner does about playback after a verb.
#[derive(Debug, Clone, Copy, PartialEq)]
pub enum TransportOp<'a> {
    /// Nothing to start.
    Keep,
    /// Start a playback worker for service `sid` with `plan`.
    Start { sid: u16, plan: StreamPlan<'a> },
}

/// The owner's half of a `sdr dab` verb: the receiver, the transport, the
/// output device and the hardware window.
#[derive(Debug, Clone, PartialEq)]
pub struct VerbEffects<'a> {
    pub receiver: ReceiverOp,
    pub transport: TransportOp<'a>,
    /// Flush the output device: a transport stopped, or a new one starts
    /// and must not play under the old queue.
    pub flush_sink: bool,
    /// Land the hardware window on a Band III block.
    pub retune: Option<DabChannel>,
}

/// Effects with nothing to do but, perhaps, flush.
pub open spec fn quiet<'a>(flush_sink: bool) -> VerbEffects<'a> {
    VerbEffects {
        receiver: ReceiverOp::Keep,
        transport: TransportOp::Keep,
        flush_sink,
        retune: None,
    }
}

fn effects<'a>(receiver: ReceiverOp, transport: TransportOp<'a>, flush_sink: bool) -> (e:
    VerbEffects<'a>)
    ensures
        e == (VerbEffects { receiver, transport, flush_sink, retune: None }),
{
    VerbEffects { receiver, transport, flush_sink, retune: None }
}

impl<R: Receiver, P, A, T> DabState<R, P, A, T> {
    /// Apply a `sdr dab` verb: the state's half here, the owner's half in
    /// the returned effects, and the verb's outcome (a refusal's reason is
    /// what the status line shows). `table` is the receiver's table while a
    /// receiver runs and `locked` whether it holds one; `playing` is the
    /// service the running transport plays; `asc` the scene's own
    /// AudioSpecificConfig.
    ///
    /// `on`, `off` and `reset` clear every derived field; a selection or a
    /// play that is refused changes nothing but the refusal shown; `stop`
    /// ends the transport only, the table and the selection being still
    /// true; selecting another service while one plays restarts playback on
    /// the new stream.
    pub fn apply_verb<'a>(
        &mut self,
        verb: DabVerb,
        table: Option<&EnsembleTable>,
        locked: bool,
        playing: Option<u16>,
        asc: &'a [u8],
    ) -> (r: (VerbEffects<'a>, Result<(), String>))
        requires
            old(self).audio is Some <==> playing is Some,
            old(self).rx is Some <==> table is Some,
            table matches Some(t) ==> t.well_ordered(),
        ensures
            (verb is On || verb is Off || verb is Reset) ==> !final(self)@.holds_derived(),
            verb is Off ==> final(self).rx is None,
            (verb is On || verb is Reset) ==> (final(self).rx is Some <==> old(self).rx is Some),
            !(verb is On || verb is Off || verb is Reset) ==> final(self).rx == old(self).rx,
            match verb {
                DabVerb::On => final(self)@ == (DabView {
                    rx: final(self).rx,
                    ..old(self)@.after_reset()
                }) && r.0 == VerbEffects::<'a> {
                    receiver: ReceiverOp::Build,
                    ..quiet(old(self).audio is Some)
                } && r.1 is Ok,
                DabVerb::Off => final(self)@ == DabView::<R, P, A, T>::fresh(None, None) && r.0
                    == quiet::<'a>(old(self).audio is Some) && r.1 is Ok,
                DabVerb::Reset => final(self)@ == (DabView {
                    rx: final(self).rx,
                    ..old(self)@.after_reset()
                }) && r.0 == quiet::<'a>(old(self).audio is Some) && r.1 is Ok,
                DabVerb::Service(choice) => {
                    let chosen = if table is None {
                        Err("dab service: receiver is off (sdr dab on)"@)
                    } else if !locked {
                        Err("dab service: no ensemble table yet"@)
                    } else {
                        selection(choice, table->0.services@)
                    };
                    match chosen {
                        Err(e) => final(self)@ == old(self)@ && r.0 == quiet::<'a>(false) && r.1
                            is Err && r.1->Err_0@ == e,
                        Ok(sid) => {
                            let picked = DabView {
                                service: Some(sid),
                                play_error: None,
                                ..old(self)@
                            };
                            if old(self).audio is None {
                                final(self)@ == picked && r.0 == quiet::<'a>(false) && r.1 is Ok
                            } else {
                                match play_attempt(Some(sid), table_value(table), locked, asc) {
                                    Err(reason) => final(self)@ == (DabView {
                                        audio: None,
                                        play_error: Some(reason),
                                        ..picked
                                    }) && r.0 == quiet::<'a>(true) && r.1 is Err && r.1->Err_0@
                                        == reason,
                                    Ok((s, plan)) => final(self)@ == (DabView {
                                        audio: None,
                                        ..picked
                                    }) && r.0 == VerbEffects::<'a> {
                                        transport: TransportOp::Start { sid: s, plan },
                                        ..quiet(true)
                                    } && r.1 is Ok,
                                }
                            }
                        },
                    }
                },
                DabVerb::Play => match play_attempt(
                    old(self).service,
                    table_value(table),
                    locked,
                    asc,
                ) {
                    Err(reason) => final(self)@ == (DabView {
                        play_error: Some(reason),
                        ..old(self)@
                    }) && r.0 == quiet::<'a>(false) && r.1 is Err && r.1->Err_0@ == reason,
                    Ok((s, plan)) => if playing == Some(s) {
                        final(self)@ == (DabView { play_error: None, ..old(self)@ }) && r.0
                            == quiet::<'a>(false) && r.1 is Ok
                    } else {
                        final(self)@ == (DabView { audio: None, play_error: None, ..old(self)@ })
                            && r.0 == VerbEffects::<'a> {
                            transport: TransportOp::Start { sid: s, plan },
                            ..quiet(true)
                        } && r.1 is Ok
                    },
                },
                DabVerb::Stop => final(self)@ == (DabView {
                    audio: None,
                    play_error: None,
                    ..old(self)@
                }) && r.0 == quiet::<'a>(old(self).audio is Some) && r.1 is Ok,
                DabVerb::Channel(ch) => final(self)@ == old(self)@ && r.0 == VerbEffects::<'a> {
                    retune: Some(ch),
                    ..quiet(false)
                } && r.1 is Ok,
            },
    {
        match verb {
            DabVerb::On => {
                let played = self.reset();
                (effects(ReceiverOp::Build, TransportOp::Keep, played), Ok(()))
            },
            DabVerb::Off => {
                let played = self.reset();
                self.rx = None;
                (effects(ReceiverOp::Keep, TransportOp::Keep, played), Ok(()))
            },
            DabVerb::Reset => {
                let played = self.reset();
                (effects(ReceiverOp::Keep, TransportOp::Keep, played), Ok(()))
            },
            DabVerb::Service(choice) => {
                let sid = match select_service(choice, table, locked) {
                    Ok(sid) => sid,
                    Err(e) => {
                        return (effects(ReceiverOp::Keep, TransportOp::Keep, false), Err(e));
                    },
                };
                self.service = Some(sid);
                self.play_error = None;
                if self.audio.is_none() {
                    return (effects(ReceiverOp::Keep, TransportOp::Keep, false), Ok(()));
                }
                self.audio = None;
                match spec_for(Some(sid), table, locked, asc) {
                    Ok((s, plan)) => (
                        effects(ReceiverOp::Keep, TransportOp::Start { sid: s, plan }, true),
                        Ok(()),
                    ),
                    Err(reason) => {
                        self.play_error = Some(reason.clone());
                        (effects(ReceiverOp::Keep, TransportOp::Keep, true), Err(reason))
                    },
                }
            },
            DabVerb::Play => match spec_for(self.service, table, locked, asc) {
                Err(reason) => {
                    self.play_error = Some(reason.clone());
                    (effects(ReceiverOp::Keep, TransportOp::Keep, false), Err(reason))
                },
                Ok((s, plan)) => {
                    self.play_error = None;
                    if playing == Some(s) {
                        (effects(ReceiverOp::Keep, TransportOp::Keep, false), Ok(()))
                    } else {
                        self.audio = None;
                        (
                            effects(ReceiverOp::Keep, TransportOp::Start { sid: s, plan }, true),
                            Ok(()),
                        )
                    }
                },
            },
            DabVerb::Stop => {
                let played = self.audio.is_some();
                self.audio = None;
                self.play_error = None;
                (effects(ReceiverOp::Keep, TransportOp::Keep, played), Ok(()))
            },
            DabVerb::Channel(ch) => (
                VerbEffects {
                    receiver: ReceiverOp::Keep,
                    transport: TransportOp::Keep,
                    flush_sink: false,
                    retune: Some(ch),
                },
                Ok(()),
            ),
        }
    }
}

/// **The one-owner invariant.** A reset and a loss of input both leave no
/// signal-derived state behind, whatever the receiver they reset in place
/// became, and neither changes whether a receiver runs.
pub proof fn lemma_clears_leave_nothing_derived<R, P, A, T>(
    v: DabView<R, P, A, T>,
    held: Option<LostEnsemble>,
    rx: Option<R>,
)
    requires
        rx is Some <==> v.rx is Some,
    ensures
        !(DabView { rx, ..v.after_reset() }).holds_derived(),
        !(DabView { rx, ..v.after_no_input(held) }).holds_derived(),
        (DabView { rx, ..v.after_reset() }).rx is Some <==> v.rx is Some,
        (DabView { rx, ..v.after_no_input(held) }).rx is Some <==> v.rx is Some,
{
}

/// A clear is idempotent: a second reset changes nothing and finds no
/// transport to stop.
pub proof fn lemma_reset_twice_is_reset_once<R, P, A, T>(v: DabView<R, P, A, T>)
    ensures
        v.after_reset().after_reset() == v.after_reset(),
        v.after_reset().audio is None,
{
}

/// Dropping the selection keeps the timing grid, the receiver and the loss
/// record, and leaves no selection, parser, transport or refusal.
pub proof fn lemma_forget_keeps_the_grid<R, P, A, T>(v: DabView<R, P, A, T>)
    ensures
        v.after_forget().next_sample == v.next_sample,
        v.after_forget().last_frame_at == v.last_frame_at,
        v.after_forget().rx == v.rx,
        v.after_forget().gone == v.gone,
        v.after_forget().service is None,
        v.after_forget().pad.is_empty(),
        v.after_forget().audio is None,
        v.after_forget().play_error is None,
{
}

/// An expiry's record survives the selection being dropped and a later
/// loss of input, which keeps naming the ensemble the expiry recorded (when
/// the receiver holds none); a reset, which describes a new window, forgets
/// it.
pub proof fn lemma_loss_record_survives_the_clears_that_describe_it<R, P, A, T>(
    v: DabView<R, P, A, T>,
    at: T,
)
    requires
        v.gone is Some,
    ensures
        v.after_forget().gone == v.gone,
        (DabView { last_frame_at: Some(at), ..v.after_forget() }).after_no_input(None).gone
            == Some(
            Gone { cause: GoneCause::NoInput, at, ensemble: v.gone->0.ensemble },
        ),
        v.after_reset().gone is None,
{
}

/// A lock answers every earlier loss, and a frame that arrives ends a
/// "no input" record.
pub proof fn lemma_a_frame_answers_no_input<T>(
    held: Option<LostEnsemble>,
    gone: Option<Gone<T>>,
    now: T,
)
    ensures
        next_gone(true, held, gone, now) is None,
        (gone matches Some(g) && g.cause == GoneCause::NoInput) ==> next_gone(
            false,
            None,
            gone,
            now,
        ) is None,
{
}

} // verus!
