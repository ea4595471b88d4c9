//! The output device's one owner, and the one name of its state.
//!
//! Two producers can reach the sink: the demodulator and DAB playback.
//! Interleaving them would put two streams in one device and let the
//! readouts disagree, so the device has an owner: a running DAB transport
//! takes it, the demodulator has it otherwise, nobody holds it when neither
//! is on. The owner is derived from the state that decides it rather than
//! stored, so it cannot go stale; a write is taken only from the owner; and
//! the state the readouts print is named in one place.

use vstd::prelude::*;

verus! {

/// Who writes PCM to the output device.
#[derive(Debug, Clone, Copy, PartialEq, Eq, Structural)]
pub enum AudioOwner {
    /// Neither the demodulator nor a DAB transport is running.
    Idle,
    /// The demodulator (`sdr demod …`).
    Demod,
    /// DAB playback (`sdr dab play`). It wins: a selected programme is an
    /// explicit act, and the demodulator's channel is still measured and
    /// reported, just not heard.
    Dab,
}

/// The readout name of an owner.
pub open spec fn owner_label(o: AudioOwner) -> Seq<char> {
    match o {
        AudioOwner::Idle => "none"@,
        AudioOwner::Demod => "demod"@,
        AudioOwner::Dab => "dab"@,
    }
}

impl AudioOwner {
    /// The readout name: `none`, `demod` or `dab`.
    pub fn label(self) -> (s: &'static str)
        ensures
            s@ == owner_label(self),
    {
        match self {
            AudioOwner::Idle => "none",
            AudioOwner::Demod => "demod",
            AudioOwner::Dab => "dab",
        }
    }
}

/// Where DAB playback is, as its worker reports it. `off` is the absence of
/// a worker, not a state here.
#[derive(Debug, Clone, Copy, PartialEq, Eq, Structural)]
pub enum AudioState {
    /// The worker is running; nothing has reached the device yet.
    Starting,
    /// PCM has reached the sink.
    Playing,
    /// The stream cannot be decoded by the compiled backend. Never a
    /// silent stream.
    Error,
}

/// The readout name of a worker state.
pub open spec fn state_label(s: AudioState) -> Seq<char> {
    match s {
        AudioState::Starting => "starting"@,
        AudioState::Playing => "playing"@,
        AudioState::Error => "error"@,
    }
}

impl AudioState {
    /// The readout name: `starting`, `playing` or `error`.
    pub fn label(self) -> (s: &'static str)
        ensures
            s@ == state_label(self),
    {
        match self {
            AudioState::Starting => "starting",
            AudioState::Playing => "playing",
            AudioState::Error => "error",
        }
    }
}

/// The output device's own state, as its sink reports it.
#[derive(Debug, Clone, Copy, PartialEq, Eq, Structural)]
pub enum SinkState {
    /// The device is being opened on its own thread.
    Starting,
    /// No output device could be opened.
    Unavailable,
    /// The device runs.
    Ready,
}

/// Who owns the device: a running DAB transport, else a running
/// demodulator, else nobody.
pub open spec fn owner_of(dab_playing: bool, demod_on: bool) -> AudioOwner {
    if dab_playing {
        AudioOwner::Dab
    } else if demod_on {
        AudioOwner::Demod
    } else {
        AudioOwner::Idle
    }
}

/// Who owns the output device right now. Derived, never stored.
pub fn audio_owner(dab_playing: bool, demod_on: bool) -> (o: AudioOwner)
    ensures
        o == owner_of(dab_playing, demod_on),
{
    if dab_playing {
        AudioOwner::Dab
    } else if demod_on {
        AudioOwner::Demod
    } else {
        AudioOwner::Idle
    }
}

/// Whether a block of `samples` samples pushed on behalf of `who` reaches
/// the device owned by `owner`: only the owner writes, and an empty block
/// is never a write.
pub open spec fn push_taken(owner: AudioOwner, who: AudioOwner, samples: nat) -> bool {
    samples > 0 && owner == who
}

/// Whether a push from `who` is taken while `owner` holds the device.
pub fn accepts_push(owner: AudioOwner, who: AudioOwner, samples: usize) -> (taken: bool)
    ensures
        taken == push_taken(owner, who, samples as nat),
{
    samples > 0 && owner == who
}

/// The state of the device as the UI, `get audio` and `get dab` report it.
/// `off`, `no device`, `starting`, `muted` and `squelched` all mean silence,
/// so they are told apart by name. A DAB stream the build cannot decode
/// reports `error` whatever the device is doing.
pub open spec fn audio_state_text(
    owner: AudioOwner,
    worker: Option<AudioState>,
    sink: Option<SinkState>,
    mute: bool,
    squelched: bool,
) -> Seq<char> {
    match owner {
        AudioOwner::Idle => "off"@,
        AudioOwner::Dab => if worker == Some(AudioState::Error) {
            "error"@
        } else {
            match sink {
                None => "starting"@,
                Some(SinkState::Starting) => "starting"@,
                Some(SinkState::Unavailable) => "no device"@,
                Some(SinkState::Ready) => if mute {
                    "muted"@
                } else {
                    match worker {
                        Some(w) => state_label(w),
                        None => "starting"@,
                    }
                },
            }
        },
        AudioOwner::Demod => match sink {
            None => "starting"@,
            Some(SinkState::Starting) => "starting"@,
            Some(SinkState::Unavailable) => "no device"@,
            Some(SinkState::Ready) => if mute {
                "muted"@
            } else if squelched {
                "squelched"@
            } else {
                "playing"@
            },
        },
    }
}

/// The one place the device's state is named: `owner` holds it, `worker`
/// is the DAB worker's own report when one runs, `sink` the device's state
/// (`None` while it was never opened).
pub fn audio_state(
    owner: AudioOwner,
    worker: Option<AudioState>,
    sink: Option<SinkState>,
    mute: bool,
    squelched: bool,
) -> (s: &'static str)
    ensures
        s@ == audio_state_text(owner, worker, sink, mute, squelched),
{
    match owner {
        AudioOwner::Idle => "off",
        AudioOwner::Dab => {
            if worker == Some(AudioState::Error) {
                return "error";
            }
            match sink {
                None => "starting",
                Some(SinkState::Starting) => "starting",
                Some(SinkState::Unavailable) => "no device",
                Some(SinkState::Ready) => if mute {
                    "muted"
                } else {
                    match worker {
                        Some(w) => w.label(),
                        None => "starting",
                    }
                },
            }
        },
        AudioOwner::Demod => match sink {
            None => "starting",
            Some(SinkState::Starting) => "starting",
            Some(SinkState::Unavailable) => "no device",
            Some(SinkState::Ready) => if mute {
                "muted"
            } else if squelched {
                "squelched"
            } else {
                "playing"
            },
        },
    }
}

/// The device has exactly one owner and it follows the state that decides
/// it: a running transport takes it from the demodulator, and stopping the
/// transport hands it straight back.
pub proof fn lemma_one_owner_at_a_time(demod_on: bool)
    ensures
        owner_of(true, demod_on) == AudioOwner::Dab,
        owner_of(false, true) == AudioOwner::Demod,
        owner_of(false, false) == AudioOwner::Idle,
{
}

/// Two producers never both reach the device: whatever the state, at most
/// one of the demodulator and the DAB transport has its block taken, an
/// idle device takes neither, and an empty block is never a write.
pub proof fn lemma_producers_never_interleave(dab_playing: bool, demod_on: bool, samples: nat)
    ensures
        !(push_taken(owner_of(dab_playing, demod_on), AudioOwner::Demod, samples) && push_taken(
            owner_of(dab_playing, demod_on),
            AudioOwner::Dab,
            samples,
        )),
        !push_taken(AudioOwner::Idle, AudioOwner::Demod, samples),
        !push_taken(AudioOwner::Idle, AudioOwner::Dab, samples),
        !push_taken(owner_of(dab_playing, demod_on), AudioOwner::Dab, 0),
        !push_taken(owner_of(dab_playing, demod_on), AudioOwner::Demod, 0),
{
}

/// While DAB owns the device, a stream the build cannot decode reads
/// `error` whatever the device is doing.
pub proof fn lemma_a_dab_error_is_never_hidden(
    sink: Option<SinkState>,
    mute: bool,
    squelched: bool,
)
    ensures
        audio_state_text(AudioOwner::Dab, Some(AudioState::Error), sink, mute, squelched)
            == "error"@,
{
}

} // verus!
