use neowon_app::dab_gone::{Gone, GoneCause, LostEnsemble};
use neowon_app::dab_state::{record_frame, DabState, Receiver};
use neowon_app::ingest::FrameCounters;

/// A receiver stand-in that records what the clears asked of it.
#[derive(Debug, Clone, Copy, PartialEq, Default)]
struct Rx {
    locked: bool,
    resets: u32,
    inputs_lost: u32,
}

impl Receiver for Rx {
    fn reset(&mut self) {
        self.locked = false;
        self.resets += 1;
    }

    fn no_input(&mut self) {
        self.locked = false;
        self.inputs_lost += 1;
    }
}

/// A locked receiver that was never cleared.
fn locked_rx() -> Rx {
    Rx { locked: true, resets: 0, inputs_lost: 0 }
}

/// The parser and transport stand-ins: the state only carries them.
type State = DabState<Rx, (), u32, f64>;

/// Every derived field set, and a receiver running.
fn populated() -> State {
    let mut dab: State = DabState::new();
    dab.rx = Some(locked_rx());
    dab.next_sample = Some(4096);
    dab.last_frame_at = Some(12.5);
    dab.service = Some(0x1004);
    dab.play_error = Some("refused".to_string());
    dab.audio = Some(0x1004);
    dab.pad.insert(3, ());
    assert!(dab.holds_derived(), "the fixture must start dirty");
    dab
}

fn sim_ensemble() -> LostEnsemble {
    LostEnsemble {
        label: Some("NEOWON SIM".into()),
        eid: Some(0x1046),
        services: 5,
    }
}

#[test]
fn reset_clears_every_derived_field_and_keeps_the_receiver() {
    let mut dab = populated();
    assert!(dab.reset(), "a running transport was stopped");
    assert!(!dab.holds_derived(), "reset left derived state behind");
    assert!(dab.on(), "the receiver stays on, just reset");
    assert!(!dab.rx.as_ref().expect("receiver").locked);
    assert_eq!(dab.rx, Some(Rx { locked: false, resets: 1, inputs_lost: 0 }));
    // Nothing to stop the second time.
    assert!(!dab.reset());
}

#[test]
fn no_input_clears_every_derived_field_and_keeps_the_receiver() {
    let mut dab = populated();
    assert!(dab.no_input(None), "a running transport was stopped");
    assert!(!dab.holds_derived(), "no_input left derived state behind");
    assert!(dab.on());
    assert_eq!(
        dab.rx,
        Some(Rx { locked: false, resets: 0, inputs_lost: 1 }),
        "the receiver dropped its lock in place"
    );
    let gone = dab.gone.as_ref().expect("no_input records the loss");
    assert_eq!(gone.cause, GoneCause::NoInput);
    assert_eq!(gone.at, 12.5);
}

#[test]
fn the_loss_record_survives_the_clears_that_describe_it() {
    let lost = sim_ensemble();
    let mut dab = populated();
    dab.gone = Some(Gone {
        cause: GoneCause::Expired,
        at: 3.0,
        ensemble: Some(lost.clone()),
    });
    dab.forget_selection();
    assert_eq!(dab.gone.as_ref().unwrap().cause, GoneCause::Expired);
    dab.last_frame_at = Some(9.0);
    dab.no_input(None);
    let gone = dab.gone.clone().unwrap();
    assert_eq!(gone.cause, GoneCause::NoInput);
    assert_eq!(gone.ensemble, Some(lost), "the lost ensemble is still named");
    assert_eq!(
        gone.ensemble.unwrap().describe(),
        "NEOWON SIM (EId 1046, 5 services)"
    );
    dab.reset();
    assert_eq!(dab.gone, None, "a reset describes a new window");
}

#[test]
fn forget_selection_keeps_the_timing_grid() {
    let mut dab = populated();
    assert!(dab.forget_selection());
    assert!(dab.on());
    assert_eq!(dab.next_sample, Some(4096));
    assert_eq!(dab.last_frame_at, Some(12.5));
    assert_eq!(dab.service, None);
    assert!(dab.pad.is_empty());
    assert!(dab.audio.is_none());
    assert_eq!(dab.play_error, None);
}

#[test]
fn clearing_an_off_receiver_leaves_it_off() {
    let mut dab: State = DabState::new();
    assert!(!dab.reset());
    assert!(!dab.on());
    assert!(!dab.holds_derived());
}

#[test]
fn no_input_names_the_ensemble_the_receiver_held() {
    let mut dab = populated();
    dab.no_input(Some(sim_ensemble()));
    let gone = dab.gone.unwrap();
    assert_eq!(gone.ensemble, Some(sim_ensemble()));
    // Without a frame ever arriving there is no time to record a loss at.
    let mut idle: State = DabState::new();
    idle.rx = Some(locked_rx());
    idle.no_input(Some(sim_ensemble()));
    assert_eq!(idle.gone, None);
}

#[test]
fn a_lock_answers_the_loss_and_an_expiry_is_recorded() {
    let mut dab = populated();
    // The table expires under the selection: the loss is recorded at the
    // frame time and the selection goes with the table.
    assert!(dab.track_lock(false, Some(sim_ensemble()), 12.5));
    let gone = dab.gone.clone().unwrap();
    assert_eq!(gone.cause, GoneCause::Expired);
    assert_eq!(gone.at, 12.5);
    assert_eq!(dab.service, None);
    assert_eq!(dab.next_sample, Some(4096), "the grid survives an expiry");
    // Searching again keeps the record; a lock answers it.
    assert!(!dab.track_lock(false, None, 13.0));
    assert_eq!(dab.gone.as_ref().unwrap().cause, GoneCause::Expired);
    assert!(!dab.track_lock(true, None, 14.0));
    assert_eq!(dab.gone, None);
    // A frame arriving ends a "no input" record.
    dab.gone = Some(Gone {
        cause: GoneCause::NoInput,
        at: 1.0,
        ensemble: None,
    });
    dab.track_lock(false, None, 15.0);
    assert_eq!(dab.gone, None);
}

/// A gap the backend counted reaches the splice decision and the counters;
/// the timestamps stay contiguous-looking, so only the count can trip it.
#[test]
fn a_reported_drop_splices_the_receiver_and_shows_in_get_sdr() {
    const N: i64 = 8192;
    let mut dab: State = DabState::new();
    dab.rx = Some(locked_rx());
    let mut counters = FrameCounters::new();
    for seq in 0..2i64 {
        counters.note_frame(0);
        assert!(!dab.note_frame(seq * N, N, 0), "a clean stream is never spliced");
    }
    assert_eq!((counters.dropped_pairs, counters.drop_events), (0, 0));

    counters.note_frame(4096);
    assert!(
        dab.note_frame(2 * N, N, 4096),
        "a counted drop must discard the buffer, not be bridged"
    );
    assert_eq!((counters.dropped_pairs, counters.drop_events), (4096, 1));

    counters.note_frame(0);
    assert!(!dab.note_frame(3 * N + 4096, N, 0), "one gap, spliced once");
    assert_eq!((counters.dropped_pairs, counters.drop_events), (4096, 1));
    assert_eq!(counters.frames_seen, 4);
    assert_eq!(dab.next_sample, Some(4 * N + 4096));
}

#[test]
fn a_jump_past_the_tolerance_splices_without_a_count() {
    let mut dab: State = DabState::new();
    assert!(!dab.note_frame(1000, 10, 0));
    // Four transmission frames of slack either way, and no further.
    assert!(!dab.note_frame(1010 + 786_432, 10, 0));
    assert!(dab.note_frame(1010 + 786_432 + 10 + 786_433, 10, 0));
    assert!(dab.note_frame(0, 10, 0));
}

#[test]
fn recording_a_frame_counts_it_and_stamps_its_arrival() {
    let mut dab = populated();
    let mut counters = FrameCounters::new();
    record_frame(&mut counters, &mut dab, 0, 20.0);
    record_frame(&mut counters, &mut dab, 512, 20.5);
    assert_eq!(counters.frames_seen, 2);
    assert_eq!((counters.dropped_pairs, counters.drop_events), (512, 1));
    assert_eq!(dab.last_frame_at, Some(20.5));
    assert_eq!(dab.next_sample, Some(4096), "arrival leaves the grid alone");
    assert_eq!(dab.service, Some(0x1004));
}
