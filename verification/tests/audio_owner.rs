use neowon_app::audio::{accepts_push, audio_owner, audio_state, AudioOwner, AudioState, SinkState};

/// The device has exactly one owner, and it follows the state that decides
/// it — nothing is stored, so nothing can go stale.
#[test]
fn one_owner_at_a_time() {
    // (DAB transport running, demodulator on)
    assert_eq!(audio_owner(false, false), AudioOwner::Idle);
    assert_eq!(
        audio_state(audio_owner(false, false), None, None, false, false),
        "off"
    );
    assert_eq!(audio_owner(false, true), AudioOwner::Demod);
    // A running transport takes the device from the demodulator.
    assert_eq!(audio_owner(true, true), AudioOwner::Dab);
    // Stopping it hands the device straight back.
    assert_eq!(audio_owner(false, true), AudioOwner::Demod);
    assert_eq!(audio_owner(false, false), AudioOwner::Idle);
}

/// A producer that does not own the device is refused.
#[test]
fn a_producer_that_does_not_own_the_device_is_refused() {
    let pcm = [0.1f32, -0.1];
    // Nobody owns it: both are refused.
    let idle = audio_owner(false, false);
    assert!(!accepts_push(idle, AudioOwner::Demod, pcm.len()));
    assert!(!accepts_push(idle, AudioOwner::Dab, pcm.len()));
    // DAB owns it, so the demodulator's push is dropped.
    let dab = audio_owner(true, true);
    assert!(!accepts_push(dab, AudioOwner::Demod, pcm.len()));
    // An empty block is never a write, whoever asks.
    assert!(!accepts_push(dab, AudioOwner::Dab, 0));
    assert!(accepts_push(dab, AudioOwner::Dab, pcm.len()));
}

/// While DAB owns the device, `get audio` reports the transport rather than
/// calling itself `off`.
#[test]
fn the_state_readout_follows_the_owner() {
    // No device open yet: the demodulator's sink is still starting.
    assert_eq!(
        audio_state(audio_owner(false, true), None, None, false, false),
        "starting"
    );
    // The worker reports `starting` until its first decoded block, and the
    // device is not open, so the device state agrees.
    let owner = audio_owner(true, true);
    assert_eq!(
        audio_state(owner, Some(AudioState::Starting), None, false, false),
        "starting"
    );
    assert_eq!(owner.label(), "dab");
}

#[test]
fn every_silence_is_named_apart() {
    let demod = AudioOwner::Demod;
    let ready = Some(SinkState::Ready);
    assert_eq!(audio_state(demod, None, Some(SinkState::Unavailable), false, false), "no device");
    assert_eq!(audio_state(demod, None, ready, true, true), "muted");
    assert_eq!(audio_state(demod, None, ready, false, true), "squelched");
    assert_eq!(audio_state(demod, None, ready, false, false), "playing");
    let dab = AudioOwner::Dab;
    assert_eq!(audio_state(dab, Some(AudioState::Playing), ready, false, false), "playing");
    assert_eq!(audio_state(dab, Some(AudioState::Playing), ready, true, false), "muted");
    // The squelch gates the demodulator only.
    assert_eq!(audio_state(dab, Some(AudioState::Playing), ready, false, true), "playing");
    // An undecodable stream reads `error` whatever the device does.
    assert_eq!(audio_state(dab, Some(AudioState::Error), None, true, true), "error");
    assert_eq!(audio_state(dab, Some(AudioState::Error), Some(SinkState::Unavailable), false, false), "error");
    assert_eq!(AudioOwner::Idle.label(), "none");
    assert_eq!(AudioOwner::Demod.label(), "demod");
    assert_eq!(AudioState::Error.label(), "error");
}
